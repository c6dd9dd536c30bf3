//! The minimal client: the RPC endpoints it knows, its service interface and
//! its first sampling step.

use crate::random::{gen_u64, std_rng_from_entropy};
use vstd::prelude::*;

verus! {

/// A service of the minimal client, built from its configuration. (Waiting
/// for it is asynchronous and belongs to the program that runs it.)
pub trait GenericService<T>: Sized {
    fn new(config: T) -> Self;
}

/// The RPC endpoints the minimal client can sample from.
#[derive(Clone, Copy, Debug, PartialEq, Eq, Structural)]
pub enum RpcEndpoint {
    Mainnet,
    Devnet,
    Localnet,
    Custom,
}

/// What the minimal sampler is configured with.
#[derive(Clone, Copy, Debug)]
pub struct SampleServiceConfig {
    pub rpc_endpoint: RpcEndpoint,
}

/// The views the minimal user interface shows.
#[derive(Clone, Debug)]
pub struct UiService {
    pub views: Vec<String>,
}

/// The minimal user interface takes no options.
#[derive(Clone, Copy, Debug)]
pub struct UiConfig {}

/// Draws one random value per shred of the slot and keeps the first
/// `sample_qty` of them. Any values may come back.
pub fn gen_random_indices(max_shreds_per_slot: u64, sample_qty: u64) -> (v: Vec<u64>)
    requires
        sample_qty <= max_shreds_per_slot,
        max_shreds_per_slot <= usize::MAX,
    ensures
        v@.len() == sample_qty,
{
    let mut rng = std_rng_from_entropy();
    let mut drawn: Vec<u64> = Vec::new();
    let mut k: u64 = 0;
    while k < max_shreds_per_slot
        invariant
            k <= max_shreds_per_slot,
            drawn@.len() == k,
        decreases max_shreds_per_slot - k,
    {
        drawn.push(gen_u64(&mut rng));
        k = k + 1;
    }
    let mut v: Vec<u64> = Vec::new();
    let mut i: usize = 0;
    while i < sample_qty as usize
        invariant
            sample_qty <= drawn@.len(),
            i <= sample_qty,
            v@ == drawn@.take(i as int),
        decreases sample_qty - i,
    {
        v.push(drawn[i]);
        assert(v@ =~= drawn@.take(i as int + 1));
        i = i + 1;
    }
    v
}

} // verus!
