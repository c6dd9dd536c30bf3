//! What a node publishes about how to reach it.

use crate::gossip::crds::{sanitize_wallclock, spec_sanitize_wallclock};
use crate::primitives::{Pubkey, SanitizeError};
use crate::wire::{enc_u16, enc_u32, enc_u64, push_bytes, push_u16, push_u32, push_u64, Wire};
use crate::wire_read::{lemma_le_bytes_len, lemma_wire_at_concat, lemma_wire_at_concat3, read_u32, wire_at, WireRead};
use vstd::prelude::*;

verus! {

/// A network address: an IPv4 or IPv6 address with a port.
#[derive(Clone, Copy, Debug)]
pub enum SocketAddr {
    V4([u8; 4], u16),
    V6([u8; 16], u16),
}

impl Wire for SocketAddr {
    /// The variant's index as a `u32`, then the address octets, then the port.
    open spec fn spec_wire(&self) -> Seq<u8> {
        match *self {
            SocketAddr::V4(ip, port) => enc_u32(0) + ip@ + enc_u16(port),
            SocketAddr::V6(ip, port) => enc_u32(1) + ip@ + enc_u16(port),
        }
    }

    fn write_wire(&self, out: &mut Vec<u8>) {
        let ghost start = out@;
        match self {
            SocketAddr::V4(ip, port) => {
                push_u32(out, 0);
                push_bytes(out, ip.as_slice());
                push_u16(out, *port);
            },
            SocketAddr::V6(ip, port) => {
                push_u32(out, 1);
                push_bytes(out, ip.as_slice());
                push_u16(out, *port);
            },
        }
        assert(out@ =~= start + self.spec_wire());
    }
}

impl WireRead for SocketAddr {
    fn read_wire(bytes: &[u8], pos: usize) -> (r: Option<(Self, usize)>) {
        proof {
            lemma_le_bytes_len(0, 4);
            lemma_le_bytes_len(1, 4);
        }
        let (tag, start) = match read_u32(bytes, pos) {
            Some(p) => p,
            None => {
                assert forall|w: SocketAddr| !#[trigger] wire_at(bytes@, pos as int, w.spec_wire()) by {
                    match w {
                        SocketAddr::V4(ip, port) => lemma_wire_at_concat3(bytes@, pos as int, enc_u32(0), ip@, enc_u16(port)),
                        SocketAddr::V6(ip, port) => lemma_wire_at_concat3(bytes@, pos as int, enc_u32(1), ip@, enc_u16(port)),
                    }
                }
                return None;
            },
        };
        if tag == 0 {
            match <([u8; 4], u16)>::read_wire(bytes, start) {
                Some(((ip, port), end)) => {
                    let v = SocketAddr::V4(ip, port);
                    proof {
                        lemma_wire_at_concat3(bytes@, pos as int, enc_u32(0), ip@, enc_u16(port));
                        assert forall|w: SocketAddr| #[trigger]
                            wire_at(bytes@, pos as int, w.spec_wire()) implies w.spec_wire() == v.spec_wire() by {
                            match w {
                                SocketAddr::V4(ip2, port2) => {
                                    lemma_wire_at_concat3(bytes@, pos as int, enc_u32(0), ip2@, enc_u16(port2));
                                    assert((ip2, port2).spec_wire() == (ip, port).spec_wire());
                                    assert(w.spec_wire() =~= enc_u32(0) + (ip2, port2).spec_wire());
                                    assert(v.spec_wire() =~= enc_u32(0) + (ip, port).spec_wire());
                                },
                                SocketAddr::V6(ip2, port2) => {
                                    lemma_wire_at_concat3(bytes@, pos as int, enc_u32(1), ip2@, enc_u16(port2));
                                },
                            }
                        }
                    }
                    Some((v, end))
                },
                None => {
                    assert forall|w: SocketAddr| !#[trigger] wire_at(bytes@, pos as int, w.spec_wire()) by {
                        match w {
                            SocketAddr::V4(ip2, port2) => {
                                lemma_wire_at_concat3(bytes@, pos as int, enc_u32(0), ip2@, enc_u16(port2));
                                assert(!wire_at(bytes@, start as int, (ip2, port2).spec_wire()));
                            },
                            SocketAddr::V6(ip2, port2) => {
                                lemma_wire_at_concat3(bytes@, pos as int, enc_u32(1), ip2@, enc_u16(port2));
                            },
                        }
                    }
                    None
                },
            }
        } else if tag == 1 {
            match <([u8; 16], u16)>::read_wire(bytes, start) {
                Some(((ip, port), end)) => {
                    let v = SocketAddr::V6(ip, port);
                    proof {
                        lemma_wire_at_concat3(bytes@, pos as int, enc_u32(1), ip@, enc_u16(port));
                        assert forall|w: SocketAddr| #[trigger]
                            wire_at(bytes@, pos as int, w.spec_wire()) implies w.spec_wire() == v.spec_wire() by {
                            match w {
                                SocketAddr::V6(ip2, port2) => {
                                    lemma_wire_at_concat3(bytes@, pos as int, enc_u32(1), ip2@, enc_u16(port2));
                                    assert((ip2, port2).spec_wire() == (ip, port).spec_wire());
                                    assert(w.spec_wire() =~= enc_u32(1) + (ip2, port2).spec_wire());
                                    assert(v.spec_wire() =~= enc_u32(1) + (ip, port).spec_wire());
                                },
                                SocketAddr::V4(ip2, port2) => {
                                    lemma_wire_at_concat3(bytes@, pos as int, enc_u32(0), ip2@, enc_u16(port2));
                                },
                            }
                        }
                    }
                    Some((v, end))
                },
                None => {
                    assert forall|w: SocketAddr| !#[trigger] wire_at(bytes@, pos as int, w.spec_wire()) by {
                        match w {
                            SocketAddr::V6(ip2, port2) => {
                                lemma_wire_at_concat3(bytes@, pos as int, enc_u32(1), ip2@, enc_u16(port2));
                                assert(!wire_at(bytes@, start as int, (ip2, port2).spec_wire()));
                            },
                            SocketAddr::V4(ip2, port2) => {
                                lemma_wire_at_concat3(bytes@, pos as int, enc_u32(0), ip2@, enc_u16(port2));
                            },
                        }
                    }
                    None
                },
            }
        } else {
            assert forall|w: SocketAddr| !#[trigger] wire_at(bytes@, pos as int, w.spec_wire()) by {
                match w {
                    SocketAddr::V4(ip, port) => lemma_wire_at_concat3(bytes@, pos as int, enc_u32(0), ip@, enc_u16(port)),
                    SocketAddr::V6(ip, port) => lemma_wire_at_concat3(bytes@, pos as int, enc_u32(1), ip@, enc_u16(port)),
                }
            }
            None
        }
    }

    proof fn lemma_encoding_nonempty(v: Self) {
        lemma_le_bytes_len(0, 4);
        lemma_le_bytes_len(1, 4);
    }
}

/// Contact information of a node: its identity, the addresses of its
/// services, when it published this record and the shred version it runs.
#[derive(Clone, Copy, Debug)]
pub struct ContactInfo {
    pub id: Pubkey,
    pub repair: SocketAddr,
    pub gossip: SocketAddr,
    pub rpc: SocketAddr,
    pub rpc_pubsub: SocketAddr,
    pub serve_repair: SocketAddr,
    pub wallclock: u64,
    pub shred_version: u16,
}

impl ContactInfo {
    /// A record is rejected when its wallclock is not below `MAX_WALLCLOCK`.
    pub fn sanitize(&self) -> (r: Result<(), SanitizeError>)
        ensures
            r == spec_sanitize_wallclock(self.wallclock),
    {
        sanitize_wallclock(self.wallclock)
    }
}

impl Wire for ContactInfo {
    /// The fields in declaration order.
    open spec fn spec_wire(&self) -> Seq<u8> {
        self.id.spec_wire() + self.repair.spec_wire() + self.gossip.spec_wire()
            + self.rpc.spec_wire() + self.rpc_pubsub.spec_wire() + self.serve_repair.spec_wire()
            + enc_u64(self.wallclock) + enc_u16(self.shred_version)
    }

    fn write_wire(&self, out: &mut Vec<u8>) {
        let ghost start = out@;
        self.id.write_wire(out);
        self.repair.write_wire(out);
        self.gossip.write_wire(out);
        self.rpc.write_wire(out);
        self.rpc_pubsub.write_wire(out);
        self.serve_repair.write_wire(out);
        push_u64(out, self.wallclock);
        push_u16(out, self.shred_version);
        assert(out@ =~= start + self.spec_wire());
    }
}

/// Contact information read as its fields in order.
type ContactInfoFields = (((((((Pubkey, SocketAddr), SocketAddr), SocketAddr), SocketAddr), SocketAddr), u64), u16);

pub open spec fn contact_info_fields(c: ContactInfo) -> ContactInfoFields {
    (((((((c.id, c.repair), c.gossip), c.rpc), c.rpc_pubsub), c.serve_repair), c.wallclock), c.shred_version)
}

impl WireRead for ContactInfo {
    fn read_wire(bytes: &[u8], pos: usize) -> (r: Option<(Self, usize)>) {
        match ContactInfoFields::read_wire(bytes, pos) {
            Some((f, end)) => {
                let (((((((id, repair), gossip), rpc), rpc_pubsub), serve_repair), wallclock), shred_version) = f;
                let c = ContactInfo { id, repair, gossip, rpc, rpc_pubsub, serve_repair, wallclock, shred_version };
                proof {
                    assert(contact_info_fields(c) == f);
                    assert forall|w: ContactInfo| #[trigger]
                        wire_at(bytes@, pos as int, w.spec_wire()) implies w.spec_wire() == c.spec_wire() by {
                        assert(contact_info_fields(w).spec_wire() == w.spec_wire());
                    }
                }
                Some((c, end))
            },
            None => {
                assert forall|w: ContactInfo| !#[trigger] wire_at(bytes@, pos as int, w.spec_wire()) by {
                    assert(contact_info_fields(w).spec_wire() == w.spec_wire());
                }
                None
            },
        }
    }

    proof fn lemma_encoding_nonempty(v: Self) {
    }
}

} // verus!
