//! Reading values back from the gossip wire format.
//!
//! Each reader takes the bytes and a position. It succeeds exactly when the
//! bytes hold the encoding of some value at that position, and the encoding
//! it recognises there is the only one that fits: so reading what was written
//! gives back a value with the same encoding.

use crate::primitives::{Digest, Pubkey, Signature};
use crate::wire::{enc_u16, enc_u32, enc_u64, le_bytes, wire_concat, wire_seq, Wire};
use vstd::prelude::*;

verus! {

/// Whether `enc` occurs in `bytes` at `pos`.
pub open spec fn wire_at(bytes: Seq<u8>, pos: int, enc: Seq<u8>) -> bool {
    0 <= pos && pos + enc.len() <= bytes.len() && bytes.subrange(pos, pos + enc.len()) == enc
}

/// `x + y` at `pos` is `x` at `pos` followed by `y`.
pub proof fn lemma_wire_at_concat(bytes: Seq<u8>, pos: int, x: Seq<u8>, y: Seq<u8>)
    ensures
        wire_at(bytes, pos, x + y) <==> (wire_at(bytes, pos, x) && wire_at(bytes, pos + x.len(), y)),
{
    if wire_at(bytes, pos, x + y) {
        let s = bytes.subrange(pos, pos + (x + y).len());
        assert(bytes.subrange(pos, pos + x.len()) =~= s.subrange(0, x.len() as int));
        assert(s.subrange(0, x.len() as int) =~= x);
        assert(bytes.subrange(pos + x.len(), pos + x.len() + y.len()) =~= s.subrange(
            x.len() as int,
            (x.len() + y.len()) as int,
        ));
        assert(s.subrange(x.len() as int, (x.len() + y.len()) as int) =~= y);
    }
    if wire_at(bytes, pos, x) && wire_at(bytes, pos + x.len(), y) {
        assert(bytes.subrange(pos, pos + (x + y).len()) =~= bytes.subrange(pos, pos + x.len())
            + bytes.subrange(pos + x.len(), pos + x.len() + y.len()));
    }
}

/// `(x + y) + z` at `pos` is `x` at `pos` followed by `y + z`.
pub proof fn lemma_wire_at_concat3(bytes: Seq<u8>, pos: int, x: Seq<u8>, y: Seq<u8>, z: Seq<u8>)
    ensures
        wire_at(bytes, pos, x + y + z) <==> (wire_at(bytes, pos, x) && wire_at(
            bytes,
            pos + x.len(),
            y + z,
        )),
{
    assert(x + y + z =~= x + (y + z));
    lemma_wire_at_concat(bytes, pos, x, y + z);
}

/// A tagged encoding at `pos` is the tag at `pos` followed by the payload.
pub proof fn lemma_tagged_at(bytes: Seq<u8>, pos: int, t: u32, payload: Seq<u8>)
    ensures
        enc_u32(t).len() == 4,
        wire_at(bytes, pos, enc_u32(t) + payload) <==> (wire_at(bytes, pos, enc_u32(t)) && wire_at(
            bytes,
            pos + 4,
            payload,
        )),
{
    lemma_le_bytes_len(t as nat, 4);
    lemma_wire_at_concat(bytes, pos, enc_u32(t), payload);
}

/// 256 to the power `w`.
pub open spec fn pow256(w: nat) -> nat
    decreases w,
{
    if w == 0 {
        1
    } else {
        256 * pow256((w - 1) as nat)
    }
}

pub proof fn lemma_le_bytes_len(n: nat, w: nat)
    ensures
        le_bytes(n, w).len() == w,
    decreases w,
{
    if w > 0 {
        lemma_le_bytes_len(n / 256, (w - 1) as nat);
    }
}

/// Little-endian encodings of numbers below `256^w` differ when the numbers
/// do.
proof fn lemma_le_bytes_injective(x: nat, y: nat, w: nat)
    requires
        x < pow256(w),
        y < pow256(w),
        le_bytes(x, w) == le_bytes(y, w),
    ensures
        x == y,
    decreases w,
{
    if w > 0 {
        let bx = le_bytes(x, w);
        let by = le_bytes(y, w);
        assert(bx[0] == by[0]);
        assert(bx.drop_first() =~= le_bytes(x / 256, (w - 1) as nat));
        assert(by.drop_first() =~= le_bytes(y / 256, (w - 1) as nat));
        assert(x / 256 < pow256((w - 1) as nat));
        assert(y / 256 < pow256((w - 1) as nat));
        lemma_le_bytes_injective(x / 256, y / 256, (w - 1) as nat);
    }
}

/// Two encodings that start with the encodings of two `u64`s agree on the
/// numbers.
pub proof fn lemma_enc_u64_prefix_injective(x: u64, y: u64, rx: Seq<u8>, ry: Seq<u8>)
    requires
        enc_u64(x) + rx == enc_u64(y) + ry,
    ensures
        x == y,
{
    lemma_le_bytes_len(x as nat, 8);
    lemma_le_bytes_len(y as nat, 8);
    assert((enc_u64(x) + rx).subrange(0, 8) =~= enc_u64(x));
    assert((enc_u64(y) + ry).subrange(0, 8) =~= enc_u64(y));
    assert(pow256(8) == 0x1_0000_0000_0000_0000) by {
        reveal_with_fuel(pow256, 9);
    }
    lemma_le_bytes_injective(x as nat, y as nat, 8);
}

/// Reads `width` bytes at `pos` as a little-endian number.
fn read_le(bytes: &[u8], pos: usize, width: usize) -> (r: u64)
    requires
        width <= 8,
        pos + width <= bytes@.len(),
    ensures
        r < pow256(width as nat),
        le_bytes(r as nat, width as nat) == bytes@.subrange(pos as int, pos + width),
    decreases width,
{
    if width == 0 {
        assert(bytes@.subrange(pos as int, pos as int) =~= Seq::<u8>::empty());
        0
    } else {
        let n = bytes.len();
        let rest = read_le(bytes, pos + 1, width - 1);
        assert(pow256(8) == 0x1_0000_0000_0000_0000) by {
            reveal_with_fuel(pow256, 9);
        }
        assert(pow256((width - 1) as nat) <= pow256(7)) by {
            reveal_with_fuel(pow256, 9);
        }
        assert(pow256(7) == 0x100_0000_0000_0000) by {
            reveal_with_fuel(pow256, 8);
        }
        let b = bytes[pos];
        let r = b as u64 + 256 * rest;
        assert(r % 256 == b);
        assert(r / 256 == rest);
        assert(bytes@.subrange(pos as int, pos + width) =~= seq![b] + bytes@.subrange(
            pos + 1,
            pos + width,
        ));
        r
    }
}

/// Reads the byte at `pos`, if there is one.
pub fn read_u8(bytes: &[u8], pos: usize) -> (r: Option<(u8, usize)>)
    ensures
        match r {
            Some((x, end)) => end == pos + 1 && wire_at(bytes@, pos as int, seq![x]),
            None => forall|x: u8| !wire_at(bytes@, pos as int, #[trigger] seq![x]),
        },
{
    if pos >= bytes.len() {
        return None;
    }
    let x = bytes[pos];
    assert(bytes@.subrange(pos as int, pos + 1) =~= seq![x]);
    Some((x, pos + 1))
}

/// Reads a little-endian `u16` at `pos`, if two bytes are there.
pub fn read_u16(bytes: &[u8], pos: usize) -> (r: Option<(u16, usize)>)
    ensures
        match r {
            Some((x, end)) => end == pos + 2 && wire_at(bytes@, pos as int, enc_u16(x)) && forall|y: u16|
                wire_at(bytes@, pos as int, #[trigger] enc_u16(y)) ==> y == x,
            None => forall|y: u16| !wire_at(bytes@, pos as int, #[trigger] enc_u16(y)),
        },
{
    if pos > bytes.len() || bytes.len() - pos < 2 {
        assert forall|y: u16| !wire_at(bytes@, pos as int, #[trigger] enc_u16(y)) by {
            lemma_le_bytes_len(y as nat, 2);
        }
        return None;
    }
    let v = read_le(bytes, pos, 2);
    assert(pow256(2) == 0x1_0000) by {
        reveal_with_fuel(pow256, 3);
    }
    let x = v as u16;
    assert forall|y: u16| wire_at(bytes@, pos as int, #[trigger] enc_u16(y)) implies y == x by {
        lemma_le_bytes_len(y as nat, 2);
        lemma_le_bytes_injective(y as nat, v as nat, 2);
    }
    Some((x, pos + 2))
}

/// Reads a little-endian `u32` at `pos`, if four bytes are there.
pub fn read_u32(bytes: &[u8], pos: usize) -> (r: Option<(u32, usize)>)
    ensures
        match r {
            Some((x, end)) => end == pos + 4 && wire_at(bytes@, pos as int, enc_u32(x)) && forall|y: u32|
                wire_at(bytes@, pos as int, #[trigger] enc_u32(y)) ==> y == x,
            None => forall|y: u32| !wire_at(bytes@, pos as int, #[trigger] enc_u32(y)),
        },
{
    if pos > bytes.len() || bytes.len() - pos < 4 {
        assert forall|y: u32| !wire_at(bytes@, pos as int, #[trigger] enc_u32(y)) by {
            lemma_le_bytes_len(y as nat, 4);
        }
        return None;
    }
    let v = read_le(bytes, pos, 4);
    assert(pow256(4) == 0x1_0000_0000) by {
        reveal_with_fuel(pow256, 5);
    }
    let x = v as u32;
    assert forall|y: u32| wire_at(bytes@, pos as int, #[trigger] enc_u32(y)) implies y == x by {
        lemma_le_bytes_len(y as nat, 4);
        lemma_le_bytes_injective(y as nat, v as nat, 4);
    }
    Some((x, pos + 4))
}

/// Reads a little-endian `u64` at `pos`, if eight bytes are there.
pub fn read_u64(bytes: &[u8], pos: usize) -> (r: Option<(u64, usize)>)
    ensures
        match r {
            Some((x, end)) => end == pos + 8 && wire_at(bytes@, pos as int, enc_u64(x)) && forall|y: u64|
                wire_at(bytes@, pos as int, #[trigger] enc_u64(y)) ==> y == x,
            None => forall|y: u64| !wire_at(bytes@, pos as int, #[trigger] enc_u64(y)),
        },
{
    if pos > bytes.len() || bytes.len() - pos < 8 {
        assert forall|y: u64| !wire_at(bytes@, pos as int, #[trigger] enc_u64(y)) by {
            lemma_le_bytes_len(y as nat, 8);
        }
        return None;
    }
    let x = read_le(bytes, pos, 8);
    assert(pow256(8) == 0x1_0000_0000_0000_0000) by {
        reveal_with_fuel(pow256, 9);
    }
    assert forall|y: u64| wire_at(bytes@, pos as int, #[trigger] enc_u64(y)) implies y == x by {
        lemma_le_bytes_len(y as nat, 8);
        lemma_le_bytes_injective(y as nat, x as nat, 8);
    }
    Some((x, pos + 8))
}

/// A value that can be read back from its encoding.
pub trait WireRead: Wire {
    /// Reads a value at `pos`. It succeeds exactly when the encoding of some
    /// value sits there, and every value whose encoding sits there has the
    /// encoding that was read.
    fn read_wire(bytes: &[u8], pos: usize) -> (r: Option<(Self, usize)>)
        ensures
            match r {
                Some((v, end)) => {
                    &&& end == pos + v.spec_wire().len()
                    &&& wire_at(bytes@, pos as int, v.spec_wire())
                    &&& forall|w: Self| #[trigger]
                        wire_at(bytes@, pos as int, w.spec_wire()) ==> w.spec_wire() == v.spec_wire()
                },
                None => forall|w: Self| !#[trigger] wire_at(bytes@, pos as int, w.spec_wire()),
            },
    ;

    /// Every value is encoded by at least one byte.
    proof fn lemma_encoding_nonempty(v: Self)
        ensures
            v.spec_wire().len() > 0,
    ;
}

/// Copies the 32 bytes at `pos`.
fn read_array32(bytes: &[u8], pos: usize) -> (r: Option<[u8; 32]>)
    ensures
        match r {
            Some(a) => pos + 32 <= bytes@.len() && a@ == bytes@.subrange(pos as int, pos + 32),
            None => pos + 32 > bytes@.len(),
        },
{
    let n = bytes.len();
    if pos > n || n - pos < 32 {
        return None;
    }
    let mut a = [0u8; 32];
    let mut i: usize = 0;
    while i < 32
        invariant
            n == bytes@.len(),
            pos + 32 <= bytes@.len(),
            0 <= i <= 32,
            forall|j: int| 0 <= j < i ==> a@[j] == bytes@[pos + j],
        decreases 32 - i,
    {
        a[i] = bytes[pos + i];
        i = i + 1;
    }
    assert(a@ =~= bytes@.subrange(pos as int, pos + 32));
    Some(a)
}

/// Copies the 64 bytes at `pos`.
fn read_array64(bytes: &[u8], pos: usize) -> (r: Option<[u8; 64]>)
    ensures
        match r {
            Some(a) => pos + 64 <= bytes@.len() && a@ == bytes@.subrange(pos as int, pos + 64),
            None => pos + 64 > bytes@.len(),
        },
{
    let n = bytes.len();
    if pos > n || n - pos < 64 {
        return None;
    }
    let mut a = [0u8; 64];
    let mut i: usize = 0;
    while i < 64
        invariant
            n == bytes@.len(),
            pos + 64 <= bytes@.len(),
            0 <= i <= 64,
            forall|j: int| 0 <= j < i ==> a@[j] == bytes@[pos + j],
        decreases 64 - i,
    {
        a[i] = bytes[pos + i];
        i = i + 1;
    }
    assert(a@ =~= bytes@.subrange(pos as int, pos + 64));
    Some(a)
}

/// Copies the 4 bytes at `pos`.
fn read_array4(bytes: &[u8], pos: usize) -> (r: Option<[u8; 4]>)
    ensures
        match r {
            Some(a) => pos + 4 <= bytes@.len() && a@ == bytes@.subrange(pos as int, pos + 4),
            None => pos + 4 > bytes@.len(),
        },
{
    let n = bytes.len();
    if pos > n || n - pos < 4 {
        return None;
    }
    let mut a = [0u8; 4];
    let mut i: usize = 0;
    while i < 4
        invariant
            n == bytes@.len(),
            pos + 4 <= bytes@.len(),
            0 <= i <= 4,
            forall|j: int| 0 <= j < i ==> a@[j] == bytes@[pos + j],
        decreases 4 - i,
    {
        a[i] = bytes[pos + i];
        i = i + 1;
    }
    assert(a@ =~= bytes@.subrange(pos as int, pos + 4));
    Some(a)
}

/// Copies the 16 bytes at `pos`.
fn read_array16(bytes: &[u8], pos: usize) -> (r: Option<[u8; 16]>)
    ensures
        match r {
            Some(a) => pos + 16 <= bytes@.len() && a@ == bytes@.subrange(pos as int, pos + 16),
            None => pos + 16 > bytes@.len(),
        },
{
    let n = bytes.len();
    if pos > n || n - pos < 16 {
        return None;
    }
    let mut a = [0u8; 16];
    let mut i: usize = 0;
    while i < 16
        invariant
            n == bytes@.len(),
            pos + 16 <= bytes@.len(),
            0 <= i <= 16,
            forall|j: int| 0 <= j < i ==> a@[j] == bytes@[pos + j],
        decreases 16 - i,
    {
        a[i] = bytes[pos + i];
        i = i + 1;
    }
    assert(a@ =~= bytes@.subrange(pos as int, pos + 16));
    Some(a)
}

impl WireRead for [u8; 4] {
    fn read_wire(bytes: &[u8], pos: usize) -> (r: Option<(Self, usize)>) {
        let n = bytes.len();
        match read_array4(bytes, pos) {
            Some(a) => Some((a, pos + 4)),
            None => None,
        }
    }

    proof fn lemma_encoding_nonempty(v: Self) {
    }
}

impl WireRead for [u8; 16] {
    fn read_wire(bytes: &[u8], pos: usize) -> (r: Option<(Self, usize)>) {
        let n = bytes.len();
        match read_array16(bytes, pos) {
            Some(a) => Some((a, pos + 16)),
            None => None,
        }
    }

    proof fn lemma_encoding_nonempty(v: Self) {
    }
}

impl WireRead for [u8; 32] {
    fn read_wire(bytes: &[u8], pos: usize) -> (r: Option<(Self, usize)>) {
        let n = bytes.len();
        match read_array32(bytes, pos) {
            Some(a) => Some((a, pos + 32)),
            None => None,
        }
    }

    proof fn lemma_encoding_nonempty(v: Self) {
    }
}

impl WireRead for Pubkey {
    fn read_wire(bytes: &[u8], pos: usize) -> (r: Option<(Self, usize)>) {
        let n = bytes.len();
        match read_array32(bytes, pos) {
            Some(a) => Some((Pubkey(a), pos + 32)),
            None => None,
        }
    }

    proof fn lemma_encoding_nonempty(v: Self) {
    }
}

impl WireRead for Digest {
    fn read_wire(bytes: &[u8], pos: usize) -> (r: Option<(Self, usize)>) {
        let n = bytes.len();
        match read_array32(bytes, pos) {
            Some(a) => Some((Digest(a), pos + 32)),
            None => None,
        }
    }

    proof fn lemma_encoding_nonempty(v: Self) {
    }
}

impl WireRead for Signature {
    fn read_wire(bytes: &[u8], pos: usize) -> (r: Option<(Self, usize)>) {
        let n = bytes.len();
        match read_array64(bytes, pos) {
            Some(a) => Some((Signature(a), pos + 64)),
            None => None,
        }
    }

    proof fn lemma_encoding_nonempty(v: Self) {
    }
}

/// The encodings of the first `k` items sit where those of all items do.
proof fn lemma_concat_prefix<T: Wire>(bytes: Seq<u8>, pos: int, w: Seq<T>, k: int)
    requires
        0 <= k <= w.len(),
        wire_at(bytes, pos, wire_concat(w)),
    ensures
        wire_at(bytes, pos, wire_concat(w.take(k))),
    decreases w.len() - k,
{
    if k == w.len() {
        assert(w.take(k) =~= w);
    } else {
        lemma_concat_prefix(bytes, pos, w, k + 1);
        lemma_concat_step(w, k);
        lemma_wire_at_concat(bytes, pos, wire_concat(w.take(k)), w[k].spec_wire());
    }
}

/// The encodings of the first `k + 1` items are those of the first `k`
/// followed by that of item `k`.
proof fn lemma_concat_step<T: Wire>(w: Seq<T>, k: int)
    requires
        0 <= k < w.len(),
    ensures
        wire_concat(w.take(k + 1)) == wire_concat(w.take(k)) + w[k].spec_wire(),
{
    assert(w.take(k + 1).drop_last() =~= w.take(k));
    assert(w.take(k + 1).last() == w[k]);
}

impl WireRead for u16 {
    fn read_wire(bytes: &[u8], pos: usize) -> (r: Option<(Self, usize)>) {
        let r = read_u16(bytes, pos);
        proof {
            if let Some((x, _)) = r {
                lemma_le_bytes_len(x as nat, 2);
            }
        }
        r
    }

    proof fn lemma_encoding_nonempty(v: Self) {
        lemma_le_bytes_len(v as nat, 2);
    }
}

impl WireRead for u32 {
    fn read_wire(bytes: &[u8], pos: usize) -> (r: Option<(Self, usize)>) {
        let r = read_u32(bytes, pos);
        proof {
            if let Some((x, _)) = r {
                lemma_le_bytes_len(x as nat, 4);
            }
        }
        r
    }

    proof fn lemma_encoding_nonempty(v: Self) {
        lemma_le_bytes_len(v as nat, 4);
    }
}

impl WireRead for u64 {
    fn read_wire(bytes: &[u8], pos: usize) -> (r: Option<(Self, usize)>) {
        let r = read_u64(bytes, pos);
        proof {
            if let Some((x, _)) = r {
                lemma_le_bytes_len(x as nat, 8);
            }
        }
        r
    }

    proof fn lemma_encoding_nonempty(v: Self) {
        lemma_le_bytes_len(v as nat, 8);
    }
}

impl<A: WireRead, B: WireRead> WireRead for (A, B) {
    fn read_wire(bytes: &[u8], pos: usize) -> (r: Option<(Self, usize)>) {
        match A::read_wire(bytes, pos) {
            None => {
                assert forall|w: (A, B)| !#[trigger] wire_at(bytes@, pos as int, w.spec_wire()) by {
                    lemma_wire_at_concat(bytes@, pos as int, w.0.spec_wire(), w.1.spec_wire());
                }
                None
            },
            Some((a, mid)) => match B::read_wire(bytes, mid) {
                None => {
                    assert forall|w: (A, B)| !#[trigger] wire_at(bytes@, pos as int, w.spec_wire()) by {
                        lemma_wire_at_concat(bytes@, pos as int, w.0.spec_wire(), w.1.spec_wire());
                        if wire_at(bytes@, pos as int, w.0.spec_wire()) {
                            assert(w.0.spec_wire() == a.spec_wire());
                        }
                    }
                    None
                },
                Some((b, end)) => {
                    proof {
                        lemma_wire_at_concat(bytes@, pos as int, a.spec_wire(), b.spec_wire());
                        assert forall|w: (A, B)| #[trigger]
                            wire_at(bytes@, pos as int, w.spec_wire()) implies w.spec_wire() == (
                            a,
                            b,
                        ).spec_wire() by {
                            lemma_wire_at_concat(bytes@, pos as int, w.0.spec_wire(), w.1.spec_wire());
                            assert(w.0.spec_wire() == a.spec_wire());
                            assert(w.1.spec_wire() == b.spec_wire());
                        }
                    }
                    Some(((a, b), end))
                },
            },
        }
    }

    proof fn lemma_encoding_nonempty(v: Self) {
        A::lemma_encoding_nonempty(v.0);
    }
}

/// Each item takes at least one byte.
proof fn lemma_concat_len<T: WireRead>(w: Seq<T>)
    ensures
        wire_concat(w).len() >= w.len(),
    decreases w.len(),
{
    if w.len() > 0 {
        lemma_concat_len(w.drop_last());
        T::lemma_encoding_nonempty(w.last());
    }
}

/// A sequence whose encoding fits in the bytes has fewer items than there
/// are bytes, so its length is encoded exactly.
proof fn lemma_seq_at<T: WireRead>(bytes: Seq<u8>, pos: int, w: Seq<T>)
    requires
        bytes.len() <= usize::MAX,
        wire_at(bytes, pos, wire_seq(w)),
    ensures
        w.len() <= usize::MAX,
        wire_at(bytes, pos, enc_u64(w.len() as u64)),
        wire_at(bytes, pos + 8, wire_concat(w)),
{
    lemma_le_bytes_len(w.len() as u64 as nat, 8);
    lemma_wire_at_concat(bytes, pos, enc_u64(w.len() as u64), wire_concat(w));
    lemma_concat_len(w);
}

/// Reads a sequence: its length as a `u64`, then that many items. It
/// succeeds exactly when the encoding of some sequence sits at `pos`, and
/// every sequence whose encoding sits there has the encoding that was read.
pub fn read_seq<T: WireRead>(bytes: &[u8], pos: usize) -> (r: Option<(Vec<T>, usize)>)
    ensures
        match r {
            Some((v, end)) => {
                &&& end == pos + wire_seq(v@).len()
                &&& wire_at(bytes@, pos as int, wire_seq(v@))
                &&& forall|w: Seq<T>| #[trigger]
                    wire_at(bytes@, pos as int, wire_seq(w)) ==> wire_seq(w) == wire_seq(v@)
                &&& forall|w: Seq<T>| #[trigger]
                    wire_at(bytes@, pos as int, wire_seq(w)) ==> w.len() == v@.len() && forall|j: int|
                        0 <= j < w.len() ==> #[trigger] w[j].spec_wire() == v@[j].spec_wire()
            },
            None => forall|w: Seq<T>| !#[trigger] wire_at(bytes@, pos as int, wire_seq(w)),
        },
{
    let blen = bytes.len();
    let (n, start) = match read_u64(bytes, pos) {
        Some(p) => p,
        None => {
            assert forall|w: Seq<T>| !#[trigger] wire_at(bytes@, pos as int, wire_seq(w)) by {
                if wire_at(bytes@, pos as int, wire_seq(w)) {
                    lemma_seq_at(bytes@, pos as int, w);
                }
            }
            return None;
        },
    };
    proof {
        lemma_le_bytes_len(n as nat, 8);
    }
    let mut v: Vec<T> = Vec::new();
    let mut cur: usize = start;
    let mut i: u64 = 0;
    assert(wire_concat(v@) =~= Seq::<u8>::empty());
    assert(bytes@.subrange(start as int, start as int) =~= Seq::<u8>::empty());
    assert forall|w: Seq<T>| #[trigger]
        wire_at(bytes@, pos as int, wire_seq(w)) implies w.len() == n && wire_concat(w.take(0))
            == wire_concat(v@) && forall|j: int| 0 <= j < 0 ==> #[trigger] w[j].spec_wire()
            == v@[j].spec_wire() by {
        lemma_seq_at(bytes@, pos as int, w);
        assert(w.take(0) =~= Seq::<T>::empty());
    }
    while i < n
        invariant
            blen == bytes@.len(),
            start == pos + 8,
            wire_at(bytes@, pos as int, enc_u64(n)),
            forall|y: u64| wire_at(bytes@, pos as int, #[trigger] enc_u64(y)) ==> y == n,
            0 <= i <= n,
            v@.len() == i,
            cur == start + wire_concat(v@).len(),
            wire_at(bytes@, start as int, wire_concat(v@)),
            forall|w: Seq<T>| #[trigger]
                wire_at(bytes@, pos as int, wire_seq(w)) ==> w.len() == n && wire_concat(w.take(i as int))
                    == wire_concat(v@) && forall|j: int|
                    0 <= j < i ==> #[trigger] w[j].spec_wire() == v@[j].spec_wire(),
        decreases n - i,
    {
        let ghost before = v@;
        match T::read_wire(bytes, cur) {
            Some((x, next)) => {
                v.push(x);
                proof {
                    assert(v@.drop_last() =~= before);
                    lemma_wire_at_concat(bytes@, start as int, wire_concat(before), x.spec_wire());
                    assert forall|w: Seq<T>| #[trigger]
                        wire_at(bytes@, pos as int, wire_seq(w)) implies w.len() == n && wire_concat(
                        w.take(i + 1),
                    ) == wire_concat(v@) && forall|j: int|
                        0 <= j < i + 1 ==> #[trigger] w[j].spec_wire() == v@[j].spec_wire() by {
                        lemma_seq_at(bytes@, pos as int, w);
                        lemma_concat_prefix(bytes@, start as int, w, i + 1);
                        lemma_concat_step(w, i as int);
                        lemma_wire_at_concat(
                            bytes@,
                            start as int,
                            wire_concat(w.take(i as int)),
                            w[i as int].spec_wire(),
                        );
                        assert(wire_at(bytes@, cur as int, w[i as int].spec_wire()));
                        assert(w[i as int].spec_wire() == x.spec_wire());
                        assert forall|j: int| 0 <= j < i + 1 implies #[trigger] w[j].spec_wire()
                            == v@[j].spec_wire() by {
                            if j < i {
                                assert(v@[j] == before[j]);
                            }
                        }
                    }
                }
                cur = next;
                i = i + 1;
            },
            None => {
                proof {
                    assert forall|w: Seq<T>| !#[trigger] wire_at(bytes@, pos as int, wire_seq(w)) by {
                        if wire_at(bytes@, pos as int, wire_seq(w)) {
                            lemma_seq_at(bytes@, pos as int, w);
                            lemma_concat_prefix(bytes@, start as int, w, i + 1);
                            lemma_concat_step(w, i as int);
                            lemma_wire_at_concat(
                                bytes@,
                                start as int,
                                wire_concat(w.take(i as int)),
                                w[i as int].spec_wire(),
                            );
                            assert(wire_at(bytes@, cur as int, w[i as int].spec_wire()));
                        }
                    }
                }
                return None;
            },
        }
    }
    proof {
        lemma_wire_at_concat(bytes@, pos as int, enc_u64(n), wire_concat(v@));
        assert(v@.len() as u64 == n);
        assert forall|w: Seq<T>| #[trigger]
            wire_at(bytes@, pos as int, wire_seq(w)) implies wire_seq(w) == wire_seq(v@) by {
            assert(w.take(n as int) =~= w);
        }
    }
    Some((v, cur))
}

impl<T: WireRead> WireRead for Vec<T> {
    fn read_wire(bytes: &[u8], pos: usize) -> (r: Option<(Self, usize)>) {
        let r = read_seq::<T>(bytes, pos);
        match r {
            Some((v, end)) => {
                assert forall|w: Vec<T>| #[trigger]
                    wire_at(bytes@, pos as int, w.spec_wire()) implies w.spec_wire() == v.spec_wire() by {
                    assert(wire_at(bytes@, pos as int, wire_seq(w@)));
                }
                Some((v, end))
            },
            None => {
                assert forall|w: Vec<T>| !#[trigger] wire_at(bytes@, pos as int, w.spec_wire()) by {
                    assert(!wire_at(bytes@, pos as int, wire_seq(w@)));
                }
                None
            },
        }
    }

    proof fn lemma_encoding_nonempty(v: Self) {
        lemma_le_bytes_len(v@.len() as u64 as nat, 8);
    }
}

} // verus!
