//! The gossip node's view of its peers and how it is configured.

use crate::gossip::contact_info::SocketAddr;
use vstd::prelude::*;

verus! {

/// The gossip peers a node knows of.
#[derive(Clone, Debug)]
pub struct Node {
    pub gossip_nodes: Vec<SocketAddr>,
}

impl Node {
    /// A node that gossips with the given peers.
    pub fn new(gossip_nodes: Vec<SocketAddr>) -> (n: Node)
        ensures
            n.gossip_nodes@ == gossip_nodes@,
    {
        Node { gossip_nodes }
    }
}

/// Where the gossip service listens: a socket address in text form.
#[derive(Clone, Debug)]
pub struct GossipConfig {
    pub gossip_socket: String,
}

} // verus!
