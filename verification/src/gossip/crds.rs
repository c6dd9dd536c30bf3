//! The cluster replicated data store: a table of signed values, one per
//! label, that nodes exchange over gossip.

use crate::gossip::contact_info::ContactInfo;
use crate::gossip::node_shreds::NodeShreds;
use crate::gossip::version::Version;
use crate::primitives::{
    blake3_hash, bytes_less, bytes_lex_less, spec_blake3_hash, spec_ed25519_sign,
    spec_signature_verify, timestamp_ms, Digest, Keypair, Pubkey, SanitizeError, Signature,
};
use crate::wire::{enc_u32, push_u32, Wire};
use crate::wire_read::{lemma_tagged_at, read_u32, wire_at, WireRead};
use indexmap::{IndexMap, IndexSet};
use vstd::prelude::*;

verus! {

/// Wallclocks at or above this bound are rejected as out of range.
pub const MAX_WALLCLOCK: u64 = 1_000_000_000_000_000u64;

/// A wallclock is acceptable exactly when it is below `MAX_WALLCLOCK`.
pub open spec fn spec_sanitize_wallclock(wallclock: u64) -> Result<(), SanitizeError> {
    if wallclock >= MAX_WALLCLOCK {
        Err(SanitizeError::ValueOutOfBounds)
    } else {
        Ok(())
    }
}

/// Rejects a wallclock that is not below `MAX_WALLCLOCK`.
pub fn sanitize_wallclock(wallclock: u64) -> (r: Result<(), SanitizeError>)
    ensures
        r == spec_sanitize_wallclock(wallclock),
{
    if wallclock >= MAX_WALLCLOCK {
        Err(SanitizeError::ValueOutOfBounds)
    } else {
        Ok(())
    }
}

/// Why a value was not written into the table.
#[derive(Clone, Copy, Debug, PartialEq, Eq, Structural)]
pub enum CrdsError {
    DuplicatePush(u8),
    InsertFailed,
    UnknownStakes,
}

/// The payload of a replicated value.
#[derive(Clone, Debug)]
pub enum CrdsData {
    ContactInfo(ContactInfo),
    NodeShreds(NodeShreds),
}

impl CrdsData {
    /// Contact information is checked for its wallclock; shred records are
    /// always well formed.
    pub open spec fn spec_sanitize(self) -> Result<(), SanitizeError> {
        match self {
            CrdsData::ContactInfo(ci) => spec_sanitize_wallclock(ci.wallclock),
            CrdsData::NodeShreds(_) => Ok(()),
        }
    }

    /// Checks the payload; see `spec_sanitize`.
    pub fn sanitize(&self) -> (r: Result<(), SanitizeError>)
        ensures
            r == self.spec_sanitize(),
    {
        match self {
            CrdsData::ContactInfo(val) => val.sanitize(),
            CrdsData::NodeShreds(node_shreds) => node_shreds.sanitize(),
        }
    }
}

impl Wire for CrdsData {
    /// The variant's index as a `u32`, then the payload.
    open spec fn spec_wire(&self) -> Seq<u8> {
        match *self {
            CrdsData::ContactInfo(ci) => enc_u32(0) + ci.spec_wire(),
            CrdsData::NodeShreds(ns) => enc_u32(1) + ns.spec_wire(),
        }
    }

    fn write_wire(&self, out: &mut Vec<u8>) {
        let ghost start = out@;
        match self {
            CrdsData::ContactInfo(ci) => {
                push_u32(out, 0);
                ci.write_wire(out);
            },
            CrdsData::NodeShreds(ns) => {
                push_u32(out, 1);
                ns.write_wire(out);
            },
        }
        assert(out@ =~= start + self.spec_wire());
    }
}

/// Names the slot of the table a value occupies: its kind and its origin.
#[derive(Clone, Copy, Debug)]
pub enum CrdsValueLabel {
    ContactInfo(Pubkey),
    NodeShreds(Pubkey),
}

/// The key under which the table stores a label: the kind as a byte (0 for
/// contact information, 1 for shred records) and the origin's key bytes.
pub open spec fn spec_label_key(label: CrdsValueLabel) -> (u8, [u8; 32]) {
    match label {
        CrdsValueLabel::ContactInfo(p) => (0u8, p.0),
        CrdsValueLabel::NodeShreds(p) => (1u8, p.0),
    }
}

impl CrdsValueLabel {
    pub open spec fn spec_pubkey(self) -> Pubkey {
        match self {
            CrdsValueLabel::ContactInfo(p) => p,
            CrdsValueLabel::NodeShreds(p) => p,
        }
    }

    /// The origin named by the label.
    pub fn pubkey(&self) -> (p: Pubkey)
        ensures
            p == self.spec_pubkey(),
    {
        match self {
            CrdsValueLabel::ContactInfo(p) => *p,
            CrdsValueLabel::NodeShreds(p) => *p,
        }
    }

    /// The table key of this label.
    pub fn key(&self) -> (k: (u8, [u8; 32]))
        ensures
            k == spec_label_key(*self),
    {
        match self {
            CrdsValueLabel::ContactInfo(p) => (0u8, p.0),
            CrdsValueLabel::NodeShreds(p) => (1u8, p.0),
        }
    }
}

impl Wire for CrdsValueLabel {
    /// The variant's index as a `u32`, then the key.
    open spec fn spec_wire(&self) -> Seq<u8> {
        match *self {
            CrdsValueLabel::ContactInfo(p) => enc_u32(0) + p.spec_wire(),
            CrdsValueLabel::NodeShreds(p) => enc_u32(1) + p.spec_wire(),
        }
    }

    fn write_wire(&self, out: &mut Vec<u8>) {
        let ghost start = out@;
        match self {
            CrdsValueLabel::ContactInfo(p) => {
                push_u32(out, 0);
                p.write_wire(out);
            },
            CrdsValueLabel::NodeShreds(p) => {
                push_u32(out, 1);
                p.write_wire(out);
            },
        }
        assert(out@ =~= start + self.spec_wire());
    }
}

/// A value replicated across the cluster: a payload and its origin's
/// signature over the payload's encoding.
#[derive(Clone, Debug)]
pub struct CrdsValue {
    pub signature: Signature,
    pub data: CrdsData,
}

impl Wire for CrdsValue {
    /// The signature, then the payload.
    open spec fn spec_wire(&self) -> Seq<u8> {
        self.signature.spec_wire() + self.data.spec_wire()
    }

    fn write_wire(&self, out: &mut Vec<u8>) {
        let ghost start = out@;
        self.signature.write_wire(out);
        self.data.write_wire(out);
        assert(out@ =~= start + self.spec_wire());
    }
}

impl WireRead for CrdsValueLabel {
    fn read_wire(bytes: &[u8], pos: usize) -> (r: Option<(Self, usize)>) {
        let (tag, start) = match read_u32(bytes, pos) {
            Some(x) => x,
            None => {
                assert forall|w: CrdsValueLabel| !#[trigger] wire_at(bytes@, pos as int, w.spec_wire()) by {
                    match w {
                        CrdsValueLabel::ContactInfo(p) => lemma_tagged_at(bytes@, pos as int, 0, p.spec_wire()),
                        CrdsValueLabel::NodeShreds(p) => lemma_tagged_at(bytes@, pos as int, 1, p.spec_wire()),
                    }
                }
                return None;
            },
        };
        if tag > 1 {
            assert forall|w: CrdsValueLabel| !#[trigger] wire_at(bytes@, pos as int, w.spec_wire()) by {
                match w {
                    CrdsValueLabel::ContactInfo(p) => lemma_tagged_at(bytes@, pos as int, 0, p.spec_wire()),
                    CrdsValueLabel::NodeShreds(p) => lemma_tagged_at(bytes@, pos as int, 1, p.spec_wire()),
                }
            }
            return None;
        }
        match Pubkey::read_wire(bytes, start) {
            Some((p, end)) => {
                let v = if tag == 0 {
                    CrdsValueLabel::ContactInfo(p)
                } else {
                    CrdsValueLabel::NodeShreds(p)
                };
                proof {
                    lemma_tagged_at(bytes@, pos as int, tag, p.spec_wire());
                    assert(v.spec_wire() == enc_u32(tag) + p.spec_wire());
                    assert forall|w: CrdsValueLabel| #[trigger]
                        wire_at(bytes@, pos as int, w.spec_wire()) implies w.spec_wire() == v.spec_wire() by {
                        match w {
                            CrdsValueLabel::ContactInfo(q) => lemma_tagged_at(bytes@, pos as int, 0, q.spec_wire()),
                            CrdsValueLabel::NodeShreds(q) => lemma_tagged_at(bytes@, pos as int, 1, q.spec_wire()),
                        }
                    }
                }
                Some((v, end))
            },
            None => {
                assert forall|w: CrdsValueLabel| !#[trigger] wire_at(bytes@, pos as int, w.spec_wire()) by {
                    match w {
                        CrdsValueLabel::ContactInfo(q) => lemma_tagged_at(bytes@, pos as int, 0, q.spec_wire()),
                        CrdsValueLabel::NodeShreds(q) => lemma_tagged_at(bytes@, pos as int, 1, q.spec_wire()),
                    }
                }
                None
            },
        }
    }

    proof fn lemma_encoding_nonempty(v: Self) {
    }
}

impl WireRead for CrdsData {
    fn read_wire(bytes: &[u8], pos: usize) -> (r: Option<(Self, usize)>) {
        let (tag, start) = match read_u32(bytes, pos) {
            Some(x) => x,
            None => {
                assert forall|w: CrdsData| !#[trigger] wire_at(bytes@, pos as int, w.spec_wire()) by {
                    match w {
                        CrdsData::ContactInfo(c) => lemma_tagged_at(bytes@, pos as int, 0, c.spec_wire()),
                        CrdsData::NodeShreds(n) => lemma_tagged_at(bytes@, pos as int, 1, n.spec_wire()),
                    }
                }
                return None;
            },
        };
        if tag == 0 {
            match ContactInfo::read_wire(bytes, start) {
                Some((c, end)) => {
                    let v = CrdsData::ContactInfo(c);
                    proof {
                        lemma_tagged_at(bytes@, pos as int, 0, c.spec_wire());
                        assert forall|w: CrdsData| #[trigger]
                            wire_at(bytes@, pos as int, w.spec_wire()) implies w.spec_wire() == v.spec_wire() by {
                            match w {
                                CrdsData::ContactInfo(c2) => lemma_tagged_at(bytes@, pos as int, 0, c2.spec_wire()),
                                CrdsData::NodeShreds(n2) => lemma_tagged_at(bytes@, pos as int, 1, n2.spec_wire()),
                            }
                        }
                    }
                    Some((v, end))
                },
                None => {
                    assert forall|w: CrdsData| !#[trigger] wire_at(bytes@, pos as int, w.spec_wire()) by {
                        match w {
                            CrdsData::ContactInfo(c2) => lemma_tagged_at(bytes@, pos as int, 0, c2.spec_wire()),
                            CrdsData::NodeShreds(n2) => lemma_tagged_at(bytes@, pos as int, 1, n2.spec_wire()),
                        }
                    }
                    None
                },
            }
        } else if tag == 1 {
            match NodeShreds::read_wire(bytes, start) {
                Some((n, end)) => {
                    let v = CrdsData::NodeShreds(n);
                    proof {
                        lemma_tagged_at(bytes@, pos as int, 1, n.spec_wire());
                        assert forall|w: CrdsData| #[trigger]
                            wire_at(bytes@, pos as int, w.spec_wire()) implies w.spec_wire() == v.spec_wire() by {
                            match w {
                                CrdsData::ContactInfo(c2) => lemma_tagged_at(bytes@, pos as int, 0, c2.spec_wire()),
                                CrdsData::NodeShreds(n2) => lemma_tagged_at(bytes@, pos as int, 1, n2.spec_wire()),
                            }
                        }
                    }
                    Some((v, end))
                },
                None => {
                    assert forall|w: CrdsData| !#[trigger] wire_at(bytes@, pos as int, w.spec_wire()) by {
                        match w {
                            CrdsData::ContactInfo(c2) => lemma_tagged_at(bytes@, pos as int, 0, c2.spec_wire()),
                            CrdsData::NodeShreds(n2) => lemma_tagged_at(bytes@, pos as int, 1, n2.spec_wire()),
                        }
                    }
                    None
                },
            }
        } else {
            assert forall|w: CrdsData| !#[trigger] wire_at(bytes@, pos as int, w.spec_wire()) by {
                match w {
                    CrdsData::ContactInfo(c2) => lemma_tagged_at(bytes@, pos as int, 0, c2.spec_wire()),
                    CrdsData::NodeShreds(n2) => lemma_tagged_at(bytes@, pos as int, 1, n2.spec_wire()),
                }
            }
            None
        }
    }

    proof fn lemma_encoding_nonempty(v: Self) {
        match v {
            CrdsData::ContactInfo(c) => lemma_tagged_at(Seq::empty(), 0, 0, c.spec_wire()),
            CrdsData::NodeShreds(n) => lemma_tagged_at(Seq::empty(), 0, 1, n.spec_wire()),
        }
    }
}

impl WireRead for CrdsValue {
    fn read_wire(bytes: &[u8], pos: usize) -> (r: Option<(Self, usize)>) {
        match <(Signature, CrdsData)>::read_wire(bytes, pos) {
            Some(((signature, data), end)) => {
                let v = CrdsValue { signature, data };
                proof {
                    assert forall|w: CrdsValue| #[trigger]
                        wire_at(bytes@, pos as int, w.spec_wire()) implies w.spec_wire() == v.spec_wire() by {
                        assert((w.signature, w.data).spec_wire() == w.spec_wire());
                    }
                }
                Some((v, end))
            },
            None => {
                assert forall|w: CrdsValue| !#[trigger] wire_at(bytes@, pos as int, w.spec_wire()) by {
                    assert((w.signature, w.data).spec_wire() == w.spec_wire());
                }
                None
            },
        }
    }

    proof fn lemma_encoding_nonempty(v: Self) {
    }
}

impl CrdsValue {
    /// The origin of the value: the node the payload describes.
    pub open spec fn spec_pubkey(self) -> Pubkey {
        match self.data {
            CrdsData::ContactInfo(ci) => ci.id,
            CrdsData::NodeShreds(ns) => ns.node_pubkey,
        }
    }

    /// The wallclock the origin stamped on the payload.
    pub open spec fn spec_wallclock(self) -> u64 {
        match self.data {
            CrdsData::ContactInfo(ci) => ci.wallclock,
            CrdsData::NodeShreds(ns) => ns.wallclock,
        }
    }

    /// The label of the value: its kind and its origin.
    pub open spec fn spec_label(self) -> CrdsValueLabel {
        match self.data {
            CrdsData::ContactInfo(_) => CrdsValueLabel::ContactInfo(self.spec_pubkey()),
            CrdsData::NodeShreds(_) => CrdsValueLabel::NodeShreds(self.spec_pubkey()),
        }
    }

    /// Whether the signature is valid for the payload's encoding under the
    /// origin's key.
    pub open spec fn spec_verify(self) -> bool {
        spec_signature_verify(self.signature.0@, self.spec_pubkey().0@, self.data.spec_wire())
    }

    /// A value with the all-zero signature.
    pub fn new_unsigned(data: CrdsData) -> (v: CrdsValue)
        ensures
            v.data == data,
            v.signature.0@ == Seq::new(64, |i: int| 0u8),
    {
        CrdsValue { signature: Signature::zeroed(), data }
    }

    /// A value signed with `keypair` over the payload's encoding.
    /// When the keypair is the payload's origin, the value verifies.
    pub fn new_signed(data: CrdsData, keypair: &Keypair) -> (v: CrdsValue)
        ensures
            v.data == data,
            v.signature.0@ == spec_ed25519_sign(keypair.view_bytes(), data.spec_wire()),
            v.spec_pubkey().0@ == keypair.spec_pubkey() ==> v.spec_verify(),
    {
        let mut value = Self::new_unsigned(data);
        value.sign(keypair);
        value
    }

    /// Signs the payload's encoding with `keypair`, replacing the signature.
    /// When the keypair is the payload's origin, the signed value verifies.
    pub fn sign(&mut self, keypair: &Keypair)
        ensures
            final(self).data == old(self).data,
            final(self).signature.0@ == spec_ed25519_sign(
                keypair.view_bytes(),
                old(self).data.spec_wire(),
            ),
            old(self).spec_pubkey().0@ == keypair.spec_pubkey() ==> final(self).spec_verify(),
    {
        let bytes = self.signable_data();
        let signature = keypair.sign_message(bytes.as_slice());
        self.set_signature(signature);
    }

    /// Signature and payload are checked; only contact information can fail.
    pub fn sanitize(&self) -> (r: Result<(), SanitizeError>)
        ensures
            r == self.data.spec_sanitize(),
    {
        let s = self.signature.sanitize();
        if s.is_err() {
            return s;
        }
        self.data.sanitize()
    }

    /// The bytes the signature covers: the payload's encoding.
    pub fn signable_data(&self) -> (bytes: Vec<u8>)
        ensures
            bytes@ == self.data.spec_wire(),
    {
        let mut out: Vec<u8> = Vec::new();
        self.data.write_wire(&mut out);
        assert(out@ =~= self.data.spec_wire());
        out
    }

    /// The signature.
    pub fn get_signature(&self) -> (s: Signature)
        ensures
            s == self.signature,
    {
        self.signature
    }

    /// Replaces the signature; nothing else changes.
    pub fn set_signature(&mut self, signature: Signature)
        ensures
            final(self).signature == signature,
            final(self).data == old(self).data,
    {
        self.signature = signature;
    }

    /// Checks the signature over the payload's encoding against the origin.
    pub fn verify(&self) -> (r: bool)
        ensures
            r == self.spec_verify(),
    {
        let pk = self.pubkey();
        let bytes = self.signable_data();
        self.signature.verify(pk.0.as_slice(), bytes.as_slice())
    }

    /// The wallclock the origin stamped on the payload.
    pub fn wallclock(&self) -> (w: u64)
        ensures
            w == self.spec_wallclock(),
            w == match self.data {
                CrdsData::ContactInfo(ci) => ci.wallclock,
                CrdsData::NodeShreds(ns) => ns.wallclock,
            },
    {
        match &self.data {
            CrdsData::ContactInfo(contact_info) => contact_info.wallclock,
            CrdsData::NodeShreds(ns) => ns.wallclock,
        }
    }

    /// The origin of the value.
    pub fn pubkey(&self) -> (p: Pubkey)
        ensures
            p == self.spec_pubkey(),
    {
        match &self.data {
            CrdsData::ContactInfo(contact_info) => contact_info.id,
            CrdsData::NodeShreds(ns) => ns.node_pubkey,
        }
    }

    /// The label of the value.
    pub fn label(&self) -> (l: CrdsValueLabel)
        ensures
            l == self.spec_label(),
    {
        match &self.data {
            CrdsData::ContactInfo(_) => CrdsValueLabel::ContactInfo(self.pubkey()),
            CrdsData::NodeShreds(_) => CrdsValueLabel::NodeShreds(self.pubkey()),
        }
    }

    /// The contact information the value carries, if it carries any.
    pub fn contact_info(&self) -> (r: Option<&ContactInfo>)
        ensures
            match self.data {
                CrdsData::ContactInfo(ci) => r == Some(&ci),
                CrdsData::NodeShreds(_) => r is None,
            },
    {
        match &self.data {
            CrdsData::ContactInfo(contact_info) => Some(contact_info),
            _ => None,
        }
    }

    /// The size in bytes of the value's encoding.
    pub fn size(&self) -> (n: u64)
        ensures
            n as int == self.spec_wire().len(),
    {
        let mut out: Vec<u8> = Vec::new();
        self.write_wire(&mut out);
        assert(out@ =~= self.spec_wire());
        out.len() as u64
    }
}

/// A value as the table holds it: with the position at which it was written,
/// the local time of the write, and the digest of its encoding.
#[derive(Clone, Debug)]
pub struct VersionedCrdsValue {
    pub ordinal: u64,
    pub value: CrdsValue,
    pub local_timestamp: u64,
    pub value_hash: Digest,
}

/// The versioned form of `value` written at position `ordinal` at local time
/// `now`: its hash is the BLAKE3 digest of the value's encoding.
pub open spec fn versioned(value: CrdsValue, ordinal: u64, now: u64) -> VersionedCrdsValue {
    VersionedCrdsValue {
        ordinal,
        value,
        local_timestamp: now,
        value_hash: Digest(spec_array_from_seq(spec_blake3_hash(value.spec_wire()))),
    }
}

/// The 32-byte array whose bytes are `s` (when `s` has 32 bytes).
pub open spec fn spec_array_from_seq(s: Seq<u8>) -> [u8; 32] {
    choose|a: [u8; 32]| a@ == s
}

impl VersionedCrdsValue {
    /// The value as written at the cursor's position at local time
    /// `local_timestamp`, with the digest of its encoding.
    pub(crate) fn new(value: CrdsValue, cursor: Cursor, local_timestamp: u64) -> (v: Self)
        ensures
            v.value == value,
            v.local_timestamp == local_timestamp,
            v.ordinal == cursor.0,
            v.value_hash.0@ == spec_blake3_hash(value.spec_wire()),
    {
        let mut bytes: Vec<u8> = Vec::new();
        value.write_wire(&mut bytes);
        assert(bytes@ =~= value.spec_wire());
        let value_hash = blake3_hash(bytes.as_slice());
        VersionedCrdsValue { ordinal: cursor.ordinal(), value, local_timestamp, value_hash }
    }
}

/// Whether `value` replaces `other`, a value held under the same label: it
/// does when its wallclock is later, or when the wallclocks tie and the
/// digest of its encoding comes after the held value's digest.
pub open spec fn spec_overrides(value: CrdsValue, other: VersionedCrdsValue) -> bool {
    value.spec_wallclock() > other.value.spec_wallclock() || (value.spec_wallclock()
        == other.value.spec_wallclock() && bytes_lex_less(
        other.value_hash.0@,
        spec_blake3_hash(value.spec_wire()),
    ))
}

/// Decides whether `value` replaces the held value `other`.
pub fn overrides(value: &CrdsValue, other: &VersionedCrdsValue) -> (r: bool)
    requires
        other.value_hash.0@.len() == 32,
    ensures
        r == spec_overrides(*value, *other),
{
    let w = value.wallclock();
    let ow = other.value.wallclock();
    if w < ow {
        false
    } else if w > ow {
        true
    } else {
        let mut bytes: Vec<u8> = Vec::new();
        value.write_wire(&mut bytes);
        assert(bytes@ =~= value.spec_wire());
        let value_hash = blake3_hash(bytes.as_slice());
        bytes_less(other.value_hash.0.as_slice(), value_hash.0.as_slice())
    }
}

/// The version a node runs, as it announces it.
#[derive(Clone, Copy, Debug)]
pub struct CrdsVersion {
    pub from: Pubkey,
    pub wallclock: u64,
    pub version: Version,
}

impl CrdsVersion {
    /// Checks the wallclock, then the key and the version (which always
    /// pass).
    pub fn sanitize(&self) -> (r: Result<(), SanitizeError>)
        ensures
            r == spec_sanitize_wallclock(self.wallclock),
    {
        let w = sanitize_wallclock(self.wallclock);
        if w.is_err() {
            return w;
        }
        let f = self.from.sanitize();
        if f.is_err() {
            return f;
        }
        self.version.sanitize()
    }

    /// The announcement of the default version by `from`, stamped with the
    /// current time.
    pub fn new(from: Pubkey) -> (v: CrdsVersion)
        ensures
            v.from == from,
            v.version.major == 0 && v.version.minor == 0 && v.version.patch == 0,
            v.version.commit is None && v.version.feature_set == 0,
    {
        CrdsVersion { from, wallclock: timestamp_ms(), version: Version::default() }
    }
}

/// Insert-order position of the next value written into the table.
#[derive(Clone, Copy, Debug, Default)]
pub struct Cursor(pub u64);

impl Cursor {
    /// The ordinal that the next inserted value receives.
    pub fn ordinal(&self) -> (r: u64)
        ensures
            r == self.0,
    {
        self.0
    }

    /// Moves the cursor past `ordinal`: it becomes the larger of its old
    /// position and `ordinal + 1`.
    pub fn consume(&mut self, ordinal: u64)
        requires
            ordinal < u64::MAX,
        ensures
            final(self).0 == if old(self).0 >= ordinal + 1 {
                old(self).0 as int
            } else {
                ordinal + 1
            },
    {
        let next = ordinal + 1;
        if self.0 < next {
            self.0 = next;
        }
    }
}

/// The declaration that lets verified code hold an `indexmap::IndexMap`.
#[verifier::external_type_specification]
#[verifier::external_body]
#[verifier::reject_recursive_types(K)]
#[verifier::reject_recursive_types(V)]
#[verifier::reject_recursive_types(S)]
pub struct ExIndexMap<K, V, S>(IndexMap<K, V, S>);

/// The declaration that lets verified code hold an `indexmap::IndexSet`.
#[verifier::external_type_specification]
#[verifier::external_body]
#[verifier::reject_recursive_types(T)]
#[verifier::reject_recursive_types(S)]
pub struct ExIndexSet<T, S>(IndexSet<T, S>);

/// The entries of the table's index map, in their order: each key with its
/// value.
pub uninterp spec fn crds_table_entries(
    m: IndexMap<(u8, [u8; 32]), VersionedCrdsValue>,
) -> Seq<((u8, [u8; 32]), VersionedCrdsValue)>;

/// The members of the table's index set of contact-information positions, in
/// their order.
pub uninterp spec fn node_index_entries(s: IndexSet<usize>) -> Seq<usize>;

/// Calls `IndexMap::default`. Claims that the new map has no entries.
#[verifier::external_body]
fn crds_table_new() -> (m: IndexMap<(u8, [u8; 32]), VersionedCrdsValue>)
    ensures
        crds_table_entries(m) == Seq::<((u8, [u8; 32]), VersionedCrdsValue)>::empty(),
{
    IndexMap::default()
}

/// Calls `IndexMap::get_full` and keeps the position and the value. Claims
/// that a found position holds an entry with the key, and the value returned
/// is that entry's value; and that nothing is found only when no entry has
/// the key.
#[verifier::external_body]
fn crds_table_get_full<'a>(
    m: &'a IndexMap<(u8, [u8; 32]), VersionedCrdsValue>,
    key: &(u8, [u8; 32]),
) -> (r: Option<(usize, &'a VersionedCrdsValue)>)
    ensures
        match r {
            Some((i, v)) => {
                &&& i < crds_table_entries(*m).len()
                &&& crds_table_entries(*m)[i as int].0 == *key
                &&& *v == crds_table_entries(*m)[i as int].1
            },
            None => forall|j: int|
                0 <= j < crds_table_entries(*m).len() ==> #[trigger] crds_table_entries(
                    *m,
                )[j].0 != *key,
        },
{
    m.get_full(key).map(|(i, _k, v)| (i, v))
}

/// Calls `IndexMap::insert_full`. Claims, as its documentation states: when
/// an entry has the key, its value is replaced in place and its position and
/// old value are returned; otherwise the pair is appended last and its
/// position, the old length, is returned with `None`.
#[verifier::external_body]
fn crds_table_insert_full(
    m: &mut IndexMap<(u8, [u8; 32]), VersionedCrdsValue>,
    key: (u8, [u8; 32]),
    value: VersionedCrdsValue,
) -> (r: (usize, Option<VersionedCrdsValue>))
    ensures
        match r.1 {
            Some(old_value) => {
                &&& r.0 < crds_table_entries(*old(m)).len()
                &&& crds_table_entries(*old(m))[r.0 as int].0 == key
                &&& old_value == crds_table_entries(*old(m))[r.0 as int].1
                &&& crds_table_entries(*final(m)) == crds_table_entries(*old(m)).update(
                    r.0 as int,
                    (key, value),
                )
            },
            None => {
                &&& forall|j: int|
                    0 <= j < crds_table_entries(*old(m)).len() ==> #[trigger] crds_table_entries(
                        *old(m),
                    )[j].0 != key
                &&& r.0 == crds_table_entries(*old(m)).len()
                &&& crds_table_entries(*final(m)) == crds_table_entries(*old(m)).push(
                    (key, value),
                )
            },
        },
{
    m.insert_full(key, value)
}

/// Calls `IndexSet::default`. Claims that the new set is empty.
#[verifier::external_body]
fn node_set_new() -> (s: IndexSet<usize>)
    ensures
        node_index_entries(s) == Seq::<usize>::empty(),
{
    IndexSet::default()
}

/// Calls `IndexSet::insert`. Claims, as its documentation states: a member
/// already present leaves the set unchanged and `false` is returned;
/// otherwise the member is appended last and `true` is returned.
#[verifier::external_body]
fn node_set_insert(s: &mut IndexSet<usize>, value: usize) -> (r: bool)
    ensures
        r == !node_index_entries(*old(s)).contains(value),
        r ==> node_index_entries(*final(s)) == node_index_entries(*old(s)).push(value),
        !r ==> node_index_entries(*final(s)) == node_index_entries(*old(s)),
{
    s.insert(value)
}

/// Whether a held value is contact information.
pub open spec fn is_contact_info(v: VersionedCrdsValue) -> bool {
    v.value.data is ContactInfo
}

/// The position of the entry with key `key`, if any.
pub open spec fn position_of_key(
    entries: Seq<((u8, [u8; 32]), VersionedCrdsValue)>,
    key: (u8, [u8; 32]),
) -> Option<int> {
    if exists|i: int| 0 <= i < entries.len() && entries[i].0 == key {
        Some(choose|i: int| 0 <= i < entries.len() && entries[i].0 == key)
    } else {
        None
    }
}

/// What a write of `value` at local time `now` does to the table `old`,
/// giving `new` and the result `r`: see `Crds::insert`.
pub open spec fn insert_outcome(
    old: Crds,
    new: Crds,
    value: CrdsValue,
    now: u64,
    r: Result<(), CrdsError>,
) -> bool {
    let key = spec_label_key(value.spec_label());
    let v = versioned(value, old.cursor_position(), now);
    match position_of_key(old.entries(), key) {
        None => {
            &&& r is Ok
            &&& v.value_hash.0@ == spec_blake3_hash(value.spec_wire())
            &&& new.entries() == old.entries().push((key, v))
            &&& if value.data is ContactInfo {
                &&& old.entries().len() <= usize::MAX
                &&& new.node_positions() == old.node_positions().push(old.entries().len() as usize)
            } else {
                new.node_positions() == old.node_positions()
            }
            &&& new.cursor_position() == old.cursor_position() + 1
        },
        Some(i) => if spec_overrides(value, old.entries()[i].1) {
            &&& r is Ok
            &&& v.value_hash.0@ == spec_blake3_hash(value.spec_wire())
            &&& new.entries() == old.entries().update(i, (key, v))
            &&& new.node_positions() == old.node_positions()
            &&& new.cursor_position() == old.cursor_position() + 1
        } else {
            &&& r == Err::<(), CrdsError>(CrdsError::InsertFailed)
            &&& new.entries() == old.entries()
            &&& new.node_positions() == old.node_positions()
            &&& new.cursor_position() == old.cursor_position()
        },
    }
}

/// The table of replicated values: one value per label, in the order the
/// labels were first written, with the positions of the contact-information
/// entries and the cursor that numbers writes.
pub struct Crds {
    table: IndexMap<(u8, [u8; 32]), VersionedCrdsValue>,
    cursor: Cursor,
    nodes: IndexSet<usize>,
}

impl Crds {
    /// The entries of the table, in order.
    pub closed spec fn entries(self) -> Seq<((u8, [u8; 32]), VersionedCrdsValue)> {
        crds_table_entries(self.table)
    }

    /// The positions of the contact-information entries, in the order they
    /// were added.
    pub closed spec fn node_positions(self) -> Seq<usize> {
        node_index_entries(self.nodes)
    }

    /// The ordinal the next write receives.
    pub closed spec fn cursor_position(self) -> u64 {
        self.cursor.0
    }

    /// The value held under `label`, if any.
    pub open spec fn lookup(self, label: CrdsValueLabel) -> Option<VersionedCrdsValue> {
        match position_of_key(self.entries(), spec_label_key(label)) {
            Some(i) => Some(self.entries()[i].1),
            None => None,
        }
    }

    /// The table is well formed: keys are distinct, each value sits under the
    /// key of its own label, every ordinal is below the cursor, and the node
    /// positions are exactly the contact-information entries, each once.
    pub open spec fn wf(self) -> bool {
        let e = self.entries();
        let n = self.node_positions();
        &&& forall|i: int, j: int|
            0 <= i < e.len() && 0 <= j < e.len() && i != j ==> #[trigger] e[i].0 != #[trigger] e[j].0
        &&& forall|i: int|
            0 <= i < e.len() ==> #[trigger] e[i].0 == spec_label_key(e[i].1.value.spec_label())
        &&& forall|i: int| 0 <= i < e.len() ==> #[trigger] e[i].1.ordinal < self.cursor_position()
        &&& forall|i: int|
            0 <= i < e.len() ==> #[trigger] e[i].1.value_hash.0@ == spec_blake3_hash(
                e[i].1.value.spec_wire(),
            )
        &&& forall|i: int, j: int|
            0 <= i < e.len() && 0 <= j < e.len() && i != j ==> #[trigger] e[i].1.ordinal
                != #[trigger] e[j].1.ordinal
        &&& n.no_duplicates()
        &&& forall|k: int|
            0 <= k < n.len() ==> #[trigger] n[k] < e.len() && is_contact_info(e[n[k] as int].1)
        &&& forall|i: int|
            0 <= i < e.len() && is_contact_info(#[trigger] e[i].1) ==> i <= usize::MAX && n.contains(
                i as usize,
            )
    }

    /// The number of labels held.
    pub fn len(&self) -> (n: usize)
        requires
            self.wf(),
        ensures
            n == self.entries().len(),
    {
        crds_table_len(&self.table)
    }

    /// The value held under `label`, if any.
    pub fn get(&self, label: &CrdsValueLabel) -> (r: Option<&VersionedCrdsValue>)
        requires
            self.wf(),
        ensures
            match r {
                Some(v) => self.lookup(*label) == Some(*v),
                None => self.lookup(*label) is None,
            },
    {
        let key = label.key();
        match crds_table_get_full(&self.table, &key) {
            Some((i, v)) => {
                assert(self.entries()[i as int].0 == spec_label_key(*label));
                Some(v)
            },
            None => None,
        }
    }

    /// Writes `value` under its label at local time `now`.
    ///
    /// A label not yet held is added last (and, for contact information, its
    /// position is recorded). A held label is overwritten when the new value
    /// overrides the held one (see `spec_overrides`); otherwise the write is
    /// refused with `InsertFailed` and nothing changes. Each accepted write
    /// receives the cursor's ordinal and moves the cursor one past it.
    pub fn insert(&mut self, value: CrdsValue, now: u64) -> (r: Result<(), CrdsError>)
        requires
            old(self).wf(),
            old(self).cursor_position() < u64::MAX,
        ensures
            final(self).wf(),
            insert_outcome(*old(self), *final(self), value, now, r),
    {
        let label = value.label();
        let key = label.key();
        let is_contact = match &value.data {
            CrdsData::ContactInfo(_) => true,
            _ => false,
        };
        let ghost old_entries = self.entries();
        let ghost old_nodes = self.node_positions();
        let ghost spec_v = versioned(value, self.cursor.0, now);
        let found = crds_table_get_full(&self.table, &key);
        let accept = match found {
            None => true,
            Some((_, existing)) => overrides(&value, existing),
        };
        proof {
            match found {
                None => {
                    assert(position_of_key(old_entries, key) is None);
                },
                Some((i, _)) => {
                    assert(position_of_key(old_entries, key) == Some(i as int));
                },
            }
        }
        if !accept {
            return Err(CrdsError::InsertFailed);
        }
        let versioned_value = VersionedCrdsValue::new(value, self.cursor, now);
        proof {
            let h = versioned_value.value_hash.0;
            let s = spec_blake3_hash(versioned_value.value.spec_wire());
            assert(h@ == s);
            assert(spec_array_from_seq(s)@ == s);
            assert(spec_array_from_seq(s)@ =~= h@);
            assert(spec_array_from_seq(s) == h);
        }
        assert(versioned_value == spec_v);
        let ordinal = versioned_value.ordinal;
        let (index, previous) = crds_table_insert_full(&mut self.table, key, versioned_value);
        if previous.is_none() && is_contact {
            node_set_insert(&mut self.nodes, index);
        }
        self.cursor.consume(ordinal);
        proof {
            let e = self.entries();
            let n = self.node_positions();
            if previous.is_none() {
                assert(e == old_entries.push((key, spec_v)));
                if is_contact {
                    assert(!old_nodes.contains(index));
                    assert(n == old_nodes.push(index));
                    assert forall|i: int|
                        0 <= i < e.len() && is_contact_info(#[trigger] e[i].1) implies i <= usize::MAX && n.contains(
                        i as usize,
                    ) by {
                        if i < old_entries.len() {
                            assert(old_entries[i] == e[i]);
                            assert(old_nodes.contains(i as usize));
                            let k = old_nodes.index_of(i as usize);
                            assert(n[k] == i as usize);
                        } else {
                            assert(n[n.len() - 1] == index);
                        }
                    }
                    assert forall|k: int| 0 <= k < n.len() implies #[trigger] n[k] < e.len()
                        && is_contact_info(e[n[k] as int].1) by {
                        if k < old_nodes.len() {
                            assert(old_nodes[k] == n[k]);
                        }
                    }
                } else {
                    assert forall|i: int|
                        0 <= i < e.len() && is_contact_info(#[trigger] e[i].1) implies i <= usize::MAX && n.contains(
                        i as usize,
                    ) by {
                        assert(i < old_entries.len());
                        assert(old_entries[i] == e[i]);
                    }
                }
            } else {
                assert(e == old_entries.update(index as int, (key, spec_v)));
                assert(old_entries[index as int].0 == key);
                assert(old_entries[index as int].1.value.spec_label() == value.spec_label()) by {
                    let ov = old_entries[index as int].1.value;
                    assert(spec_label_key(ov.spec_label()) == spec_label_key(value.spec_label()));
                }
                assert forall|i: int|
                    0 <= i < e.len() && is_contact_info(#[trigger] e[i].1) implies i <= usize::MAX && n.contains(
                    i as usize,
                ) by {
                    if i != index {
                        assert(old_entries[i] == e[i]);
                    }
                }
            }
        }
        Ok(())
    }
}

impl Default for Crds {
    /// An empty table with the cursor at 0.
    fn default() -> (c: Self)
        ensures
            c.wf(),
            c.entries() == Seq::<((u8, [u8; 32]), VersionedCrdsValue)>::empty(),
            c.node_positions() == Seq::<usize>::empty(),
            c.cursor_position() == 0,
    {
        Crds { table: crds_table_new(), cursor: Cursor(0), nodes: node_set_new() }
    }
}

/// In a table whose keys are distinct, the position of a key that sits at
/// position `i` is `i`.
proof fn lemma_position_at(e: Seq<((u8, [u8; 32]), VersionedCrdsValue)>, i: int)
    requires
        0 <= i < e.len(),
        forall|a: int, b: int|
            0 <= a < e.len() && 0 <= b < e.len() && a != b ==> #[trigger] e[a].0 != #[trigger] e[b].0,
    ensures
        position_of_key(e, e[i].0) == Some(i),
{
    let k = e[i].0;
    assert(exists|j: int| 0 <= j < e.len() && e[j].0 == k);
    let j = choose|j: int| 0 <= j < e.len() && e[j].0 == k;
    if j != i {
        assert(e[j].0 != e[i].0);
    }
}

/// Law (read after write): once a write is accepted, the label holds the
/// written value, stamped with the write's ordinal and local time.
pub proof fn lemma_insert_read_back(
    old: Crds,
    new: Crds,
    value: CrdsValue,
    now: u64,
    r: Result<(), CrdsError>,
)
    requires
        old.wf(),
        new.wf(),
        insert_outcome(old, new, value, now, r),
        r is Ok,
    ensures
        new.lookup(value.spec_label()) == Some(versioned(value, old.cursor_position(), now)),
{
    let key = spec_label_key(value.spec_label());
    let e = new.entries();
    match position_of_key(old.entries(), key) {
        None => {
            lemma_position_at(e, old.entries().len() as int);
        },
        Some(i) => {
            assert(old.entries()[i].0 == key);
            lemma_position_at(e, i);
        },
    }
}

/// Law: a refused write leaves the table exactly as it was.
pub proof fn lemma_refused_insert_changes_nothing(
    old: Crds,
    new: Crds,
    value: CrdsValue,
    now: u64,
    r: Result<(), CrdsError>,
)
    requires
        old.wf(),
        insert_outcome(old, new, value, now, r),
        r is Err,
    ensures
        new.entries() == old.entries(),
        new.node_positions() == old.node_positions(),
        new.cursor_position() == old.cursor_position(),
        forall|l: CrdsValueLabel| new.lookup(l) == old.lookup(l),
{
}

/// Law: a write under one label leaves what every other label holds as it
/// was.
pub proof fn lemma_insert_keeps_other_labels(
    old: Crds,
    new: Crds,
    value: CrdsValue,
    now: u64,
    r: Result<(), CrdsError>,
    other: CrdsValueLabel,
)
    requires
        old.wf(),
        new.wf(),
        insert_outcome(old, new, value, now, r),
        other != value.spec_label(),
    ensures
        new.lookup(other) == old.lookup(other),
{
    let key = spec_label_key(value.spec_label());
    let okey = spec_label_key(other);
    assert(okey != key) by {
        match (other, value.spec_label()) {
            (CrdsValueLabel::ContactInfo(a), CrdsValueLabel::ContactInfo(b)) => {
                if a.0 == b.0 {
                    assert(other == value.spec_label());
                }
            },
            (CrdsValueLabel::NodeShreds(a), CrdsValueLabel::NodeShreds(b)) => {
                if a.0 == b.0 {
                    assert(other == value.spec_label());
                }
            },
            _ => {},
        }
    }
    let oe = old.entries();
    let e = new.entries();
    if r is Ok {
        match position_of_key(oe, okey) {
            Some(j) => {
                assert(oe[j].0 == okey);
                assert(e[j] == oe[j]);
                lemma_position_at(e, j);
            },
            None => {
                assert forall|j: int| 0 <= j < e.len() implies e[j].0 != okey by {
                    if j < oe.len() {
                        if e[j] != oe[j] {
                            assert(e[j].0 == key);
                        }
                    } else {
                        assert(e[j].0 == key);
                    }
                }
            },
        }
    }
}

/// Law: the first write of a label is always accepted.
pub proof fn lemma_first_write_accepted(
    old: Crds,
    new: Crds,
    value: CrdsValue,
    now: u64,
    r: Result<(), CrdsError>,
)
    requires
        old.wf(),
        insert_outcome(old, new, value, now, r),
        old.lookup(value.spec_label()) is None,
    ensures
        r is Ok,
{
}

/// Law: a value stamped later than the one its label holds always replaces
/// it.
pub proof fn lemma_later_wallclock_wins(
    old: Crds,
    new: Crds,
    value: CrdsValue,
    now: u64,
    r: Result<(), CrdsError>,
)
    requires
        old.wf(),
        insert_outcome(old, new, value, now, r),
        old.lookup(value.spec_label()) matches Some(held) && value.spec_wallclock()
            > held.value.spec_wallclock(),
    ensures
        r is Ok,
{
}

/// Law: a value stamped earlier than the one its label holds is refused.
pub proof fn lemma_earlier_wallclock_refused(
    old: Crds,
    new: Crds,
    value: CrdsValue,
    now: u64,
    r: Result<(), CrdsError>,
)
    requires
        old.wf(),
        insert_outcome(old, new, value, now, r),
        old.lookup(value.spec_label()) matches Some(held) && value.spec_wallclock()
            < held.value.spec_wallclock(),
    ensures
        r == Err::<(), CrdsError>(CrdsError::InsertFailed),
{
}

/// Law (the latest stamp is picked): a write whose payload carries a later
/// stamp than the value its label holds (the wallclock of the contact
/// information, or of the shred record) is accepted, and the label then holds
/// it; one whose payload carries an earlier stamp is refused and changes
/// nothing.
pub proof fn lemma_payload_stamp_orders_writes(
    old: Crds,
    new: Crds,
    value: CrdsValue,
    now: u64,
    r: Result<(), CrdsError>,
    held: VersionedCrdsValue,
)
    requires
        old.wf(),
        insert_outcome(old, new, value, now, r),
        old.lookup(value.spec_label()) == Some(held),
    ensures
        (match value.data {
            CrdsData::ContactInfo(ci) => ci.wallclock,
            CrdsData::NodeShreds(ns) => ns.wallclock,
        }) > (match held.value.data {
            CrdsData::ContactInfo(ci) => ci.wallclock,
            CrdsData::NodeShreds(ns) => ns.wallclock,
        }) ==> r is Ok && new.lookup(value.spec_label()) == Some(
            versioned(value, old.cursor_position(), now),
        ),
        (match value.data {
            CrdsData::ContactInfo(ci) => ci.wallclock,
            CrdsData::NodeShreds(ns) => ns.wallclock,
        }) < (match held.value.data {
            CrdsData::ContactInfo(ci) => ci.wallclock,
            CrdsData::NodeShreds(ns) => ns.wallclock,
        }) ==> r == Err::<(), CrdsError>(CrdsError::InsertFailed) && new.entries() == old.entries()
            && new.lookup(value.spec_label()) == Some(held),
{
    lemma_insert_outcome_keeps_wf(old, new, value, now, r);
    if r is Ok {
        lemma_insert_read_back(old, new, value, now, r);
    }
}

/// Law: writing again the value a label already holds is refused.
pub proof fn lemma_duplicate_refused(
    old: Crds,
    new: Crds,
    value: CrdsValue,
    now: u64,
    r: Result<(), CrdsError>,
)
    requires
        old.wf(),
        insert_outcome(old, new, value, now, r),
        old.lookup(value.spec_label()) matches Some(held) && held.value == value,
    ensures
        r == Err::<(), CrdsError>(CrdsError::InsertFailed),
{
    let key = spec_label_key(value.spec_label());
    let i = position_of_key(old.entries(), key)->0;
    let held = old.entries()[i].1;
    assert(held.value_hash.0@ == spec_blake3_hash(value.spec_wire()));
    assert(!bytes_lex_less(held.value_hash.0@, held.value_hash.0@));
}

/// Law: each accepted write moves the cursor forward by one, and the
/// ordinals of the held values stay distinct and below the cursor.
pub proof fn lemma_accepted_write_advances_cursor(
    old: Crds,
    new: Crds,
    value: CrdsValue,
    now: u64,
    r: Result<(), CrdsError>,
)
    requires
        old.wf(),
        new.wf(),
        insert_outcome(old, new, value, now, r),
        r is Ok,
    ensures
        new.cursor_position() == old.cursor_position() + 1,
        forall|i: int|
            0 <= i < new.entries().len() ==> #[trigger] new.entries()[i].1.ordinal
                < new.cursor_position(),
        forall|i: int, j: int|
            0 <= i < new.entries().len() && 0 <= j < new.entries().len() && i != j
                ==> #[trigger] new.entries()[i].1.ordinal != #[trigger] new.entries()[j].1.ordinal,
{
}

/// Law: the recorded node positions are exactly the positions of the
/// contact-information entries.
pub proof fn lemma_node_positions_are_contact_info(c: Crds, i: usize)
    requires
        c.wf(),
        i < c.entries().len(),
    ensures
        c.node_positions().contains(i) <==> is_contact_info(c.entries()[i as int].1),
{
    if c.node_positions().contains(i) {
        let k = c.node_positions().index_of(i);
        assert(c.node_positions()[k] == i);
    }
}

/// A held value is contact information exactly when its key's kind byte is
/// that of contact information.
proof fn lemma_contact_by_key(v: CrdsValue)
    ensures
        (v.data is ContactInfo) <==> spec_label_key(v.spec_label()).0 == 0,
{
}

/// Whatever a write does to a well-formed table, the table stays well formed.
proof fn lemma_insert_outcome_keeps_wf(
    old: Crds,
    new: Crds,
    value: CrdsValue,
    now: u64,
    r: Result<(), CrdsError>,
)
    requires
        old.wf(),
        insert_outcome(old, new, value, now, r),
    ensures
        new.wf(),
        new.entries().len() <= old.entries().len() + if r is Ok {
            1int
        } else {
            0int
        },
{
    let key = spec_label_key(value.spec_label());
    let v = versioned(value, old.cursor_position(), now);
    let oe = old.entries();
    let on = old.node_positions();
    let e = new.entries();
    let n = new.node_positions();
    match position_of_key(oe, key) {
        None => {
            assert forall|i: int| 0 <= i < oe.len() implies #[trigger] oe[i].0 != key by {
                if oe[i].0 == key {
                    assert(exists|j: int| 0 <= j < oe.len() && oe[j].0 == key);
                }
            }
            assert(e.len() == oe.len() + 1);
            assert forall|i: int| 0 <= i < oe.len() implies #[trigger] e[i] == oe[i] by {}
            assert(e[oe.len() as int] == (key, v));
            assert forall|i: int, j: int|
                0 <= i < e.len() && 0 <= j < e.len() && i != j implies #[trigger] e[i].0
                != #[trigger] e[j].0 by {
                if i < oe.len() && j < oe.len() {
                    assert(e[i] == oe[i] && e[j] == oe[j]);
                } else if i < oe.len() {
                    assert(e[i] == oe[i]);
                } else if j < oe.len() {
                    assert(e[j] == oe[j]);
                }
            }
            assert forall|i: int, j: int|
                0 <= i < e.len() && 0 <= j < e.len() && i != j implies #[trigger] e[i].1.ordinal
                != #[trigger] e[j].1.ordinal by {
                if i < oe.len() && j < oe.len() {
                    assert(e[i] == oe[i] && e[j] == oe[j]);
                } else if i < oe.len() {
                    assert(e[i] == oe[i]);
                } else if j < oe.len() {
                    assert(e[j] == oe[j]);
                }
            }
            assert forall|i: int| 0 <= i < e.len() implies #[trigger] e[i].1.ordinal
                < new.cursor_position() by {
                if i < oe.len() {
                    assert(e[i] == oe[i]);
                }
            }
            assert forall|i: int| 0 <= i < e.len() implies #[trigger] e[i].0 == spec_label_key(
                e[i].1.value.spec_label(),
            ) && e[i].1.value_hash.0@ == spec_blake3_hash(e[i].1.value.spec_wire()) by {
                if i < oe.len() {
                    assert(e[i] == oe[i]);
                }
            }
            if value.data is ContactInfo {
                assert(n == on.push(oe.len() as usize));
                assert(!on.contains(oe.len() as usize)) by {
                    if on.contains(oe.len() as usize) {
                        let k = on.index_of(oe.len() as usize);
                        assert(on[k] < oe.len());
                    }
                }
                assert forall|k: int| 0 <= k < n.len() implies #[trigger] n[k] < e.len()
                    && is_contact_info(e[n[k] as int].1) by {
                    if k < on.len() {
                        assert(n[k] == on[k]);
                        assert(e[on[k] as int] == oe[on[k] as int]);
                    }
                }
                assert forall|i: int|
                    0 <= i < e.len() && is_contact_info(#[trigger] e[i].1) implies i <= usize::MAX && n.contains(
                    i as usize,
                ) by {
                    if i < oe.len() {
                        assert(e[i] == oe[i]);
                        let k = on.index_of(i as usize);
                        assert(n[k] == i as usize);
                    } else {
                        assert(n[n.len() - 1] == oe.len() as usize);
                    }
                }
            } else {
                assert(n == on);
                assert forall|k: int| 0 <= k < n.len() implies #[trigger] n[k] < e.len()
                    && is_contact_info(e[n[k] as int].1) by {
                    assert(e[on[k] as int] == oe[on[k] as int]);
                }
                assert forall|i: int|
                    0 <= i < e.len() && is_contact_info(#[trigger] e[i].1) implies i <= usize::MAX && n.contains(
                    i as usize,
                ) by {
                    if i < oe.len() {
                        assert(e[i] == oe[i]);
                    }
                }
            }
        },
        Some(p) => {
            assert(0 <= p < oe.len() && oe[p].0 == key) by {
                assert(exists|j: int| 0 <= j < oe.len() && oe[j].0 == key);
            }
            if spec_overrides(value, oe[p].1) {
                assert(e == oe.update(p, (key, v)));
                assert(n == on);
                lemma_contact_by_key(value);
                lemma_contact_by_key(oe[p].1.value);
                assert(is_contact_info(oe[p].1) == is_contact_info(v));
                assert forall|i: int, j: int|
                    0 <= i < e.len() && 0 <= j < e.len() && i != j implies #[trigger] e[i].0
                    != #[trigger] e[j].0 by {
                    if i != p && j != p {
                        assert(e[i] == oe[i] && e[j] == oe[j]);
                    } else if i == p {
                        assert(e[j] == oe[j]);
                    } else {
                        assert(e[i] == oe[i]);
                    }
                }
                assert forall|i: int, j: int|
                    0 <= i < e.len() && 0 <= j < e.len() && i != j implies #[trigger] e[i].1.ordinal
                    != #[trigger] e[j].1.ordinal by {
                    if i != p && j != p {
                        assert(e[i] == oe[i] && e[j] == oe[j]);
                    } else if i == p {
                        assert(e[j] == oe[j]);
                    } else {
                        assert(e[i] == oe[i]);
                    }
                }
                assert forall|i: int| 0 <= i < e.len() implies #[trigger] e[i].1.ordinal
                    < new.cursor_position() by {
                    if i != p {
                        assert(e[i] == oe[i]);
                    }
                }
                assert forall|i: int| 0 <= i < e.len() implies #[trigger] e[i].0 == spec_label_key(
                    e[i].1.value.spec_label(),
                ) && e[i].1.value_hash.0@ == spec_blake3_hash(e[i].1.value.spec_wire()) by {
                    if i != p {
                        assert(e[i] == oe[i]);
                    }
                }
                assert forall|k: int| 0 <= k < n.len() implies #[trigger] n[k] < e.len()
                    && is_contact_info(e[n[k] as int].1) by {
                    if on[k] as int != p {
                        assert(e[on[k] as int] == oe[on[k] as int]);
                    }
                }
                assert forall|i: int|
                    0 <= i < e.len() && is_contact_info(#[trigger] e[i].1) implies i <= usize::MAX && n.contains(
                    i as usize,
                ) by {
                    if i != p {
                        assert(e[i] == oe[i]);
                    } else {
                        assert(is_contact_info(oe[i].1));
                    }
                }
            } else {
                assert(e == oe && n == on);
            }
        },
    }
}

/// The number of accepted writes among the results.
pub open spec fn accepted_writes(results: Seq<Result<(), CrdsError>>) -> nat
    decreases results.len(),
{
    if results.len() == 0 {
        0
    } else {
        accepted_writes(results.drop_last()) + if results.last() is Ok {
            1nat
        } else {
            0nat
        }
    }
}

/// Whether `states` is a run of the table: it starts empty with the cursor
/// at 0, as `Crds::default` makes it, and each next state is what writing
/// `values[i]` at local time `nows[i]` makes of the one before, with result
/// `results[i]`.
pub open spec fn is_run(
    states: Seq<Crds>,
    values: Seq<CrdsValue>,
    nows: Seq<u64>,
    results: Seq<Result<(), CrdsError>>,
) -> bool {
    &&& states.len() == values.len() + 1
    &&& nows.len() == values.len()
    &&& results.len() == values.len()
    &&& states[0].entries() == Seq::<((u8, [u8; 32]), VersionedCrdsValue)>::empty()
    &&& states[0].node_positions() == Seq::<usize>::empty()
    &&& states[0].cursor_position() == 0
    &&& forall|i: int|
        0 <= i < values.len() ==> #[trigger] insert_outcome(
            states[i],
            states[i + 1],
            values[i],
            nows[i],
            results[i],
        )
}

/// Law (one value per label): a table made by `Crds::default` and any
/// sequence of writes, `k` of them accepted, holds each value under the key of
/// its own label, keys and ordinals are distinct, every ordinal is below the
/// cursor, the cursor stands at `k`, and the recorded node positions are
/// exactly the positions of the contact-information entries.
pub proof fn lemma_reachable_tables_well_formed(
    states: Seq<Crds>,
    values: Seq<CrdsValue>,
    nows: Seq<u64>,
    results: Seq<Result<(), CrdsError>>,
)
    requires
        is_run(states, values, nows, results),
    ensures
        ({
            let c = states.last();
            let e = c.entries();
            &&& c.wf()
            &&& c.cursor_position() == accepted_writes(results)
            &&& e.len() <= accepted_writes(results)
            &&& forall|i: int|
                0 <= i < e.len() ==> #[trigger] e[i].0 == spec_label_key(e[i].1.value.spec_label())
            &&& forall|i: int, j: int|
                0 <= i < e.len() && 0 <= j < e.len() && i != j ==> #[trigger] e[i].0 != #[trigger] e[j].0
            &&& forall|i: int, j: int|
                0 <= i < e.len() && 0 <= j < e.len() && i != j ==> #[trigger] e[i].1.ordinal
                    != #[trigger] e[j].1.ordinal
            &&& forall|i: int| 0 <= i < e.len() ==> #[trigger] e[i].1.ordinal < c.cursor_position()
            &&& forall|k: int|
                0 <= k < c.node_positions().len() ==> #[trigger] c.node_positions()[k] < e.len()
                    && is_contact_info(e[c.node_positions()[k] as int].1)
            &&& forall|i: int|
                0 <= i < e.len() && is_contact_info(#[trigger] e[i].1) ==> i <= usize::MAX
                    && c.node_positions().contains(i as usize)
        }),
    decreases values.len(),
{
    if values.len() == 0 {
        assert(states.last() == states[0]);
    } else {
        let m = (values.len() - 1) as int;
        let s2 = states.drop_last();
        let v2 = values.drop_last();
        let n2 = nows.drop_last();
        let r2 = results.drop_last();
        assert forall|i: int| 0 <= i < v2.len() implies #[trigger] insert_outcome(
            s2[i],
            s2[i + 1],
            v2[i],
            n2[i],
            r2[i],
        ) by {
            assert(insert_outcome(states[i], states[i + 1], values[i], nows[i], results[i]));
        }
        lemma_reachable_tables_well_formed(s2, v2, n2, r2);
        assert(s2.last() == states[m]);
        assert(insert_outcome(states[m], states[m + 1], values[m], nows[m], results[m]));
        lemma_insert_outcome_keeps_wf(states[m], states[m + 1], values[m], nows[m], results[m]);
        assert(states.last() == states[m + 1]);
        assert(results.last() == results[m]);
    }
}

/// Calls `IndexMap::len`. Claims that the result is the number of entries.
#[verifier::external_body]
fn crds_table_len(m: &IndexMap<(u8, [u8; 32]), VersionedCrdsValue>) -> (n: usize)
    ensures
        n == crds_table_entries(*m).len(),
{
    m.len()
}

} // verus!
