//! The record of which shreds a node holds, slot by slot.

use crate::primitives::{timestamp_ms, Pubkey, SanitizeError, Slot};
use crate::wire::{enc_u32, enc_u64, push_u32, push_u64, push_u8, Wire};
use crate::wire_read::{lemma_le_bytes_len, read_u8, wire_at, WireRead};
use vstd::prelude::*;

verus! {

/// Whether a shred carries data or erasure coding.
#[derive(Clone, Copy, Debug, PartialEq, Eq, Structural)]
pub enum ShredType {
    Data,
    Code,
}

impl ShredType {
    /// The byte that identifies the shred type: `0b1010_0101` for data and
    /// `0b0101_1010` for code.
    pub open spec fn spec_byte(self) -> u8 {
        match self {
            ShredType::Data => 0b1010_0101u8,
            ShredType::Code => 0b0101_1010u8,
        }
    }

    /// The byte that identifies the shred type.
    pub fn to_byte(&self) -> (b: u8)
        ensures
            b == self.spec_byte(),
    {
        match self {
            ShredType::Data => 0b1010_0101u8,
            ShredType::Code => 0b0101_1010u8,
        }
    }
}

impl Wire for ShredType {
    /// The type's byte.
    open spec fn spec_wire(&self) -> Seq<u8> {
        seq![self.spec_byte()]
    }

    fn write_wire(&self, out: &mut Vec<u8>) {
        push_u8(out, self.to_byte());
    }
}

impl WireRead for ShredType {
    fn read_wire(bytes: &[u8], pos: usize) -> (r: Option<(Self, usize)>) {
        match read_u8(bytes, pos) {
            Some((b, end)) => {
                if b == 0b1010_0101u8 {
                    Some((ShredType::Data, end))
                } else if b == 0b0101_1010u8 {
                    Some((ShredType::Code, end))
                } else {
                    assert forall|w: ShredType| !#[trigger] wire_at(bytes@, pos as int, w.spec_wire()) by {
                        if wire_at(bytes@, pos as int, w.spec_wire()) {
                            assert(bytes@.subrange(pos as int, pos + 1)[0] == b);
                        }
                    }
                    None
                }
            },
            None => {
                assert forall|w: ShredType| !#[trigger] wire_at(bytes@, pos as int, w.spec_wire()) by {
                    assert(!wire_at(bytes@, pos as int, seq![w.spec_byte()]));
                }
                None
            },
        }
    }

    proof fn lemma_encoding_nonempty(v: Self) {
    }
}

/// Identifies a shred: its slot, its index within the slot and its type.
#[derive(Clone, Copy, Debug, PartialEq, Eq, Structural)]
pub struct ShredId(pub Slot, pub u32, pub ShredType);

impl Wire for ShredId {
    open spec fn spec_wire(&self) -> Seq<u8> {
        enc_u64(self.0) + enc_u32(self.1) + seq![self.2.spec_byte()]
    }

    fn write_wire(&self, out: &mut Vec<u8>) {
        let ghost start = out@;
        push_u64(out, self.0);
        push_u32(out, self.1);
        push_u8(out, self.2.to_byte());
        assert(out@ =~= start + self.spec_wire());
    }
}

/// A shred id read as its fields in order.
type ShredIdFields = ((Slot, u32), ShredType);

impl WireRead for ShredId {
    fn read_wire(bytes: &[u8], pos: usize) -> (r: Option<(Self, usize)>) {
        match ShredIdFields::read_wire(bytes, pos) {
            Some((((slot, index), t), end)) => {
                let v = ShredId(slot, index, t);
                proof {
                    assert forall|w: ShredId| #[trigger]
                        wire_at(bytes@, pos as int, w.spec_wire()) implies w.spec_wire() == v.spec_wire() by {
                        assert(((w.0, w.1), w.2).spec_wire() == w.spec_wire());
                    }
                }
                Some((v, end))
            },
            None => {
                assert forall|w: ShredId| !#[trigger] wire_at(bytes@, pos as int, w.spec_wire()) by {
                    assert(((w.0, w.1), w.2).spec_wire() == w.spec_wire());
                }
                None
            },
        }
    }

    proof fn lemma_encoding_nonempty(v: Self) {
        lemma_le_bytes_len(v.0 as nat, 8);
    }
}
/// One entry of a shred table: a slot and the ids of the shreds held of it.
pub type ShredTableEntry = (Slot, Vec<ShredId>);

/// The shreds a node holds, slot by slot, with the time the record was made
/// and the node's identity.
///
/// The table is kept as its entries in the order in which they are encoded:
/// the encoding of a map follows the order in which the map is walked, and a
/// received record lists its slots in whatever order its sender walked them.
/// A slot listed more than once stands for its last listing, as when the
/// entries are inserted into a map one after another.
#[derive(Clone, Debug)]
pub struct NodeShreds {
    pub shred_table: Vec<ShredTableEntry>,
    pub wallclock: u64,
    pub node_pubkey: Pubkey,
}

/// The map that the entries stand for: they are inserted one after another,
/// so each slot maps to the shred ids of its last entry.
pub open spec fn spec_shred_map(entries: Seq<ShredTableEntry>) -> Map<Slot, Vec<ShredId>>
    decreases entries.len(),
{
    if entries.len() == 0 {
        Map::empty()
    } else {
        spec_shred_map(entries.drop_last()).insert(entries.last().0, entries.last().1)
    }
}

/// A slot is in the map exactly when some entry lists it, and then it maps to
/// the ids of the last entry that lists it.
proof fn lemma_shred_map_last(entries: Seq<ShredTableEntry>, slot: Slot, i: int)
    requires
        0 <= i < entries.len(),
        entries[i].0 == slot,
        forall|j: int| i < j < entries.len() ==> #[trigger] entries[j].0 != slot,
    ensures
        spec_shred_map(entries).dom().contains(slot),
        spec_shred_map(entries)[slot] == entries[i].1,
    decreases entries.len(),
{
    if i < entries.len() - 1 {
        lemma_shred_map_last(entries.drop_last(), slot, i);
        assert(entries.last().0 == entries[entries.len() - 1].0);
    }
}

/// A slot that no entry lists is not in the map.
proof fn lemma_shred_map_absent(entries: Seq<ShredTableEntry>, slot: Slot)
    requires
        forall|j: int| 0 <= j < entries.len() ==> #[trigger] entries[j].0 != slot,
    ensures
        !spec_shred_map(entries).dom().contains(slot),
    decreases entries.len(),
{
    if entries.len() > 0 {
        lemma_shred_map_absent(entries.drop_last(), slot);
        assert(entries.last().0 == entries[entries.len() - 1].0);
    }
}

impl NodeShreds {
    /// Every shred record is well formed on the wire.
    pub fn sanitize(&self) -> (r: Result<(), SanitizeError>)
        ensures
            r == Ok::<(), SanitizeError>(()),
    {
        Ok(())
    }

    /// The record of the given shreds, all of one slot, held by `node_pubkey`,
    /// stamped with the current time.
    pub fn new(shreds: Vec<ShredId>, node_pubkey: Pubkey) -> (ns: NodeShreds)
        requires
            shreds@.len() > 0,
            forall|i: int| 0 <= i < shreds@.len() ==> #[trigger] shreds@[i].0 == shreds@[0].0,
        ensures
            ns.shred_table@ == seq![(shreds@[0].0, shreds)],
            spec_shred_map(ns.shred_table@) == map![shreds@[0].0 => shreds],
            ns.node_pubkey == node_pubkey,
    {
        let slot = shreds[0].0;
        let ghost ids = shreds;
        let mut shred_table: Vec<ShredTableEntry> = Vec::new();
        shred_table.push((slot, shreds));
        proof {
            let e = shred_table@;
            assert(e.drop_last() =~= Seq::<ShredTableEntry>::empty());
            assert(spec_shred_map(e.drop_last()) == Map::<Slot, Vec<ShredId>>::empty());
            assert(e.last() == (slot, ids));
            assert(spec_shred_map(e) =~= map![slot => ids]);
        }
        let wallclock = timestamp_ms();
        NodeShreds { shred_table, wallclock, node_pubkey }
    }

    /// The shred ids held of `slot`: those of the last entry that lists it,
    /// or `None` when no entry does.
    pub fn shreds_for(&self, slot: Slot) -> (r: Option<&Vec<ShredId>>)
        ensures
            match r {
                Some(ids) => spec_shred_map(self.shred_table@).dom().contains(slot)
                    && *ids == spec_shred_map(self.shred_table@)[slot],
                None => !spec_shred_map(self.shred_table@).dom().contains(slot),
            },
    {
        let mut i: usize = self.shred_table.len();
        while i > 0
            invariant
                i <= self.shred_table@.len(),
                forall|j: int| i <= j < self.shred_table@.len() ==> #[trigger] self.shred_table@[j].0 != slot,
            decreases i,
        {
            i = i - 1;
            if self.shred_table[i].0 == slot {
                proof {
                    lemma_shred_map_last(self.shred_table@, slot, i as int);
                }
                return Some(&self.shred_table[i].1);
            }
        }
        proof {
            lemma_shred_map_absent(self.shred_table@, slot);
        }
        None
    }
}

impl Wire for NodeShreds {
    /// The table's entries as a sequence (their number as a `u64`, then each
    /// slot followed by its shred ids), then the wallclock, then the node's
    /// key.
    open spec fn spec_wire(&self) -> Seq<u8> {
        self.shred_table.spec_wire() + enc_u64(self.wallclock) + self.node_pubkey.spec_wire()
    }

    fn write_wire(&self, out: &mut Vec<u8>) {
        let ghost start = out@;
        self.shred_table.write_wire(out);
        push_u64(out, self.wallclock);
        self.node_pubkey.write_wire(out);
        assert(out@ =~= start + self.spec_wire());
    }
}

/// A shred record read as its fields in order.
type NodeShredsFields = ((Vec<ShredTableEntry>, u64), Pubkey);

impl WireRead for NodeShreds {
    /// Reads the entries in the order they come, whatever the order of their
    /// slots.
    fn read_wire(bytes: &[u8], pos: usize) -> (r: Option<(Self, usize)>) {
        match NodeShredsFields::read_wire(bytes, pos) {
            Some((((shred_table, wallclock), node_pubkey), end)) => {
                let v = NodeShreds { shred_table, wallclock, node_pubkey };
                proof {
                    assert forall|w: NodeShreds| #[trigger]
                        wire_at(bytes@, pos as int, w.spec_wire()) implies w.spec_wire() == v.spec_wire() by {
                        assert(((w.shred_table, w.wallclock), w.node_pubkey).spec_wire() == w.spec_wire());
                    }
                    assert(((v.shred_table, v.wallclock), v.node_pubkey).spec_wire() == v.spec_wire());
                }
                Some((v, end))
            },
            None => {
                assert forall|w: NodeShreds| !#[trigger] wire_at(bytes@, pos as int, w.spec_wire()) by {
                    assert(((w.shred_table, w.wallclock), w.node_pubkey).spec_wire() == w.spec_wire());
                }
                None
            },
        }
    }

    proof fn lemma_encoding_nonempty(v: Self) {
        lemma_le_bytes_len(v.wallclock as nat, 8);
    }
}

} // verus!
