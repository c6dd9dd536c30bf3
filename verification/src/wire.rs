//! The gossip wire format: fixed-width little-endian integers, raw byte
//! arrays, length-prefixed sequences and tagged variants.

use crate::primitives::{Digest, Pubkey, Signature};
use vstd::prelude::*;

verus! {

/// The `width` low-order bytes of `n`, least significant first.
pub open spec fn le_bytes(n: nat, width: nat) -> Seq<u8>
    decreases width,
{
    if width == 0 {
        Seq::empty()
    } else {
        seq![(n % 256) as u8] + le_bytes(n / 256, (width - 1) as nat)
    }
}

pub open spec fn enc_u16(x: u16) -> Seq<u8> {
    le_bytes(x as nat, 2)
}

pub open spec fn enc_u32(x: u32) -> Seq<u8> {
    le_bytes(x as nat, 4)
}

pub open spec fn enc_u64(x: u64) -> Seq<u8> {
    le_bytes(x as nat, 8)
}

/// An optional `u32`: a 0 byte for `None`, or a 1 byte followed by the value.
pub open spec fn enc_option_u32(o: Option<u32>) -> Seq<u8> {
    match o {
        None => seq![0u8],
        Some(x) => seq![1u8] + enc_u32(x),
    }
}

/// Appends the `width` low-order bytes of `x`, least significant first.
pub fn push_le(out: &mut Vec<u8>, x: u64, width: usize)
    ensures
        final(out)@ == old(out)@ + le_bytes(x as nat, width as nat),
{
    let ghost start = out@;
    let mut v: u64 = x;
    let mut i: usize = 0;
    assert(out@ + le_bytes(x as nat, width as nat) =~= start + le_bytes(x as nat, width as nat));
    while i < width
        invariant
            0 <= i <= width,
            out@ + le_bytes(v as nat, (width - i) as nat) == start + le_bytes(x as nat, width as nat),
        decreases width - i,
    {
        let b: u8 = (v % 256) as u8;
        let ghost rest = le_bytes((v / 256) as nat, (width - i - 1) as nat);
        assert(le_bytes(v as nat, (width - i) as nat) == seq![b] + rest);
        assert(out@.push(b) + rest =~= out@ + (seq![b] + rest));
        out.push(b);
        v = v / 256;
        i = i + 1;
    }
    assert(le_bytes(v as nat, 0) =~= Seq::<u8>::empty());
    assert(out@ + Seq::<u8>::empty() =~= out@);
}

/// Appends one byte.
pub fn push_u8(out: &mut Vec<u8>, x: u8)
    ensures
        final(out)@ == old(out)@ + seq![x],
{
    out.push(x);
    assert(old(out)@.push(x) =~= old(out)@ + seq![x]);
}

/// Appends a `u16`, little-endian.
pub fn push_u16(out: &mut Vec<u8>, x: u16)
    ensures
        final(out)@ == old(out)@ + enc_u16(x),
{
    push_le(out, x as u64, 2);
}

/// Appends a `u32`, little-endian.
pub fn push_u32(out: &mut Vec<u8>, x: u32)
    ensures
        final(out)@ == old(out)@ + enc_u32(x),
{
    push_le(out, x as u64, 4);
}

/// Appends a `u64`, little-endian.
pub fn push_u64(out: &mut Vec<u8>, x: u64)
    ensures
        final(out)@ == old(out)@ + enc_u64(x),
{
    push_le(out, x, 8);
}

/// Appends an optional `u32`: a 0 byte, or a 1 byte and the value.
pub fn push_option_u32(out: &mut Vec<u8>, o: Option<u32>)
    ensures
        final(out)@ == old(out)@ + enc_option_u32(o),
{
    match o {
        None => push_u8(out, 0),
        Some(x) => {
            push_u8(out, 1);
            push_u32(out, x);
            assert(old(out)@ + seq![1u8] + enc_u32(x) =~= old(out)@ + (seq![1u8] + enc_u32(x)));
        },
    }
}

/// Appends raw bytes, with no length prefix.
pub fn push_bytes(out: &mut Vec<u8>, bytes: &[u8])
    ensures
        final(out)@ == old(out)@ + bytes@,
{
    let ghost start = out@;
    let mut i: usize = 0;
    while i < bytes.len()
        invariant
            0 <= i <= bytes@.len(),
            out@ == start + bytes@.subrange(0, i as int),
        decreases bytes@.len() - i,
    {
        assert(bytes@.subrange(0, i + 1) =~= bytes@.subrange(0, i as int).push(bytes@[i as int]));
        out.push(bytes[i]);
        i = i + 1;
    }
    assert(bytes@.subrange(0, bytes@.len() as int) =~= bytes@);
}

/// A value with a fixed encoding on the gossip wire.
pub trait Wire: Sized {
    /// The bytes that encode the value.
    spec fn spec_wire(&self) -> Seq<u8>;

    /// Appends the encoding of the value.
    fn write_wire(&self, out: &mut Vec<u8>)
        ensures
            final(out)@ == old(out)@ + self.spec_wire(),
    ;
}

/// The encodings of the items, one after another.
pub open spec fn wire_concat<T: Wire>(items: Seq<T>) -> Seq<u8>
    decreases items.len(),
{
    if items.len() == 0 {
        Seq::empty()
    } else {
        wire_concat(items.drop_last()) + items.last().spec_wire()
    }
}

/// A sequence: its length as a `u64`, then each item's encoding.
pub open spec fn wire_seq<T: Wire>(items: Seq<T>) -> Seq<u8> {
    enc_u64(items.len() as u64) + wire_concat(items)
}

/// Appends the encoding of a sequence of values.
pub fn write_seq<T: Wire>(items: &Vec<T>, out: &mut Vec<u8>)
    ensures
        final(out)@ == old(out)@ + wire_seq(items@),
{
    let ghost start = out@;
    push_u64(out, items.len() as u64);
    let mut i: usize = 0;
    while i < items.len()
        invariant
            0 <= i <= items@.len(),
            out@ == start + enc_u64(items@.len() as u64) + wire_concat(items@.subrange(0, i as int)),
        decreases items@.len() - i,
    {
        let ghost before = out@;
        items[i].write_wire(out);
        proof {
            let s = items@.subrange(0, i + 1);
            assert(s.drop_last() =~= items@.subrange(0, i as int));
            assert(s.last() == items@[i as int]);
        }
        assert(out@ =~= start + enc_u64(items@.len() as u64) + wire_concat(items@.subrange(0, i + 1)));
        i = i + 1;
    }
    assert(items@.subrange(0, items@.len() as int) =~= items@);
    assert(out@ =~= start + wire_seq(items@));
}

impl Wire for u16 {
    open spec fn spec_wire(&self) -> Seq<u8> {
        enc_u16(*self)
    }

    fn write_wire(&self, out: &mut Vec<u8>) {
        push_u16(out, *self);
    }
}

impl Wire for u32 {
    open spec fn spec_wire(&self) -> Seq<u8> {
        enc_u32(*self)
    }

    fn write_wire(&self, out: &mut Vec<u8>) {
        push_u32(out, *self);
    }
}

impl Wire for u64 {
    open spec fn spec_wire(&self) -> Seq<u8> {
        enc_u64(*self)
    }

    fn write_wire(&self, out: &mut Vec<u8>) {
        push_u64(out, *self);
    }
}

/// A sequence of values is encoded as `wire_seq`.
impl<T: Wire> Wire for Vec<T> {
    open spec fn spec_wire(&self) -> Seq<u8> {
        wire_seq(self@)
    }

    fn write_wire(&self, out: &mut Vec<u8>) {
        write_seq(self, out);
    }
}

/// A pair is encoded as its first value followed by its second.
impl<A: Wire, B: Wire> Wire for (A, B) {
    open spec fn spec_wire(&self) -> Seq<u8> {
        self.0.spec_wire() + self.1.spec_wire()
    }

    fn write_wire(&self, out: &mut Vec<u8>) {
        let ghost start = out@;
        self.0.write_wire(out);
        self.1.write_wire(out);
        assert(out@ =~= start + self.spec_wire());
    }
}

/// A fixed-size byte array is encoded as its bytes.
impl Wire for [u8; 4] {
    open spec fn spec_wire(&self) -> Seq<u8> {
        self@
    }

    fn write_wire(&self, out: &mut Vec<u8>) {
        push_bytes(out, self.as_slice());
    }
}

impl Wire for [u8; 16] {
    open spec fn spec_wire(&self) -> Seq<u8> {
        self@
    }

    fn write_wire(&self, out: &mut Vec<u8>) {
        push_bytes(out, self.as_slice());
    }
}

impl Wire for Pubkey {
    open spec fn spec_wire(&self) -> Seq<u8> {
        self.0@
    }

    fn write_wire(&self, out: &mut Vec<u8>) {
        push_bytes(out, self.0.as_slice());
    }
}

impl Wire for Signature {
    open spec fn spec_wire(&self) -> Seq<u8> {
        self.0@
    }

    fn write_wire(&self, out: &mut Vec<u8>) {
        push_bytes(out, self.0.as_slice());
    }
}

impl Wire for Digest {
    open spec fn spec_wire(&self) -> Seq<u8> {
        self.0@
    }

    fn write_wire(&self, out: &mut Vec<u8>) {
        push_bytes(out, self.0.as_slice());
    }
}

} // verus!
