//! Sampling shreds of a slot and archiving the ones that verify.
//!
//! A slot is sampled by asking an RPC node for a handful of shreds at random
//! indices (and always the first one), then checking what came back against
//! what was asked for. Verified shreds are archived under a key derived from
//! their slot, type and index.

use crate::gossip::node_shreds::{ShredId, ShredType};
use crate::primitives::{pubkey_from_str, sha256_hashv, spec_pubkey_from_str, spec_sha256_hashv, Digest, Pubkey, Slot};
use crate::random::{gen_index_below, std_rng_from_entropy};
use crate::wire::{enc_u32, enc_u64, push_u32, push_u64};
use vstd::prelude::*;

verus! {

/// The column family of the archive that holds verified shreds.
pub const SHRED_CF: &'static str = "archived_shreds";

/// How many shreds are drawn at random from each slot, besides the first.
pub const SAMPLES_PER_SLOT: usize = 10usize;

/// Where and for how long verified shreds are kept.
#[derive(Clone, Debug)]
pub struct ArchiveConfig {
    pub shred_archive_duration: u64,
    pub archive_path: String,
}

/// `sample_qty` shred indices drawn uniformly below `max_shreds_per_slot`.
/// Indices may repeat.
pub fn gen_random_indices(max_shreds_per_slot: usize, sample_qty: usize) -> (v: Vec<usize>)
    requires
        sample_qty > 0 ==> max_shreds_per_slot > 0,
    ensures
        v@.len() == sample_qty,
        forall|i: int| 0 <= i < v@.len() ==> v@[i] < max_shreds_per_slot,
{
    let mut rng = std_rng_from_entropy();
    let mut v: Vec<usize> = Vec::new();
    let mut k: usize = 0;
    while k < sample_qty
        invariant
            k <= sample_qty,
            sample_qty > 0 ==> max_shreds_per_slot > 0,
            v@.len() == k,
            forall|i: int| 0 <= i < v@.len() ==> v@[i] < max_shreds_per_slot,
        decreases sample_qty - k,
    {
        let index = gen_index_below(&mut rng, max_shreds_per_slot);
        v.push(index);
        k = k + 1;
    }
    v
}

/// The indices requested from a slot: `SAMPLES_PER_SLOT` random indices
/// below the slot's shred count, followed by index 0.
pub fn sample_indices_for_slot(max_shreds_per_slot: usize) -> (v: Vec<usize>)
    requires
        max_shreds_per_slot > 0,
    ensures
        v@.len() == SAMPLES_PER_SLOT + 1,
        v@.last() == 0,
        forall|i: int| 0 <= i < v@.len() ==> v@[i] < max_shreds_per_slot,
{
    let mut v = gen_random_indices(max_shreds_per_slot, SAMPLES_PER_SLOT);
    v.push(0);
    v
}

/// A shred as an RPC node returns it: at most one of its data and coding
/// forms is expected to be present.
#[derive(Clone, Debug, Default)]
pub struct RpcShred<D, C> {
    pub shred_data: Option<D>,
    pub shred_code: Option<C>,
}

/// The shreds of a slot that an RPC node returned, with the slot's leader.
#[derive(Clone, Debug, Default)]
pub struct GetShredResult<D, C> {
    pub leader: String,
    pub shreds: Vec<Option<RpcShred<D, C>>>,
}

/// The answer to a `getShreds` request.
#[derive(Clone, Debug, Default)]
pub struct GetShredResponse<D, C> {
    pub jsonrpc: String,
    pub result: GetShredResult<D, C>,
    pub id: i64,
}

/// What `try_coerce_shred` makes of a returned shred: the data form when only
/// it is present, the coding form when only it is present, nothing otherwise.
pub enum CoercedShred<D, C> {
    Data(D),
    Code(C),
}

/// The shred that a response entry stands for, if it stands for exactly one.
pub open spec fn spec_coerce_shred<D, C>(entry: Option<RpcShred<D, C>>) -> Option<CoercedShred<D, C>> {
    match entry {
        Some(r) => match (r.shred_data, r.shred_code) {
            (Some(d), None) => Some(CoercedShred::Data(d)),
            (None, Some(c)) => Some(CoercedShred::Code(c)),
            _ => None,
        },
        None => None,
    }
}

/// Turns a response entry into the shred it stands for: `None` for a missing
/// entry and for one that holds both forms or neither.
pub fn try_coerce_shred<D, C>(entry: Option<RpcShred<D, C>>) -> (r: Option<CoercedShred<D, C>>)
    ensures
        r == spec_coerce_shred(entry),
{
    match entry {
        Some(response) => match (response.shred_data, response.shred_code) {
            (Some(data_shred), None) => Some(CoercedShred::Data(data_shred)),
            (None, Some(coding_shred)) => Some(CoercedShred::Code(coding_shred)),
            _ => None,
        },
        None => None,
    }
}

/// Why a slot could not be sampled.
#[derive(Clone, Copy, Debug, PartialEq, Eq, Structural)]
pub enum SamplingError {
    /// The probe for the slot's first shred came back empty.
    FirstShredNotFound,
    /// The probe's shred held neither a data nor a coding form.
    NeitherDataNorCode,
    /// The leader named in the answer is not a public key.
    InvalidLeader,
}

impl SamplingError {
    /// The message the error is reported with.
    pub fn message(&self) -> (m: String)
        ensures
            m@ == spec_sampling_error_message(*self),
    {
        match self {
            SamplingError::FirstShredNotFound => "first shred not found".to_owned(),
            SamplingError::NeitherDataNorCode => "shred isnt either data or code type".to_owned(),
            SamplingError::InvalidLeader => "invalid leader public key".to_owned(),
        }
    }
}

pub open spec fn spec_sampling_error_message(e: SamplingError) -> Seq<char> {
    match e {
        SamplingError::FirstShredNotFound => "first shred not found"@,
        SamplingError::NeitherDataNorCode => "shred isnt either data or code type"@,
        SamplingError::InvalidLeader => "invalid leader public key"@,
    }
}

/// Which form of the probe shred the slot's shred count is read from: the
/// entry at position 1 of the probe's answer must be present; its data form
/// is preferred, then its coding form.
pub open spec fn spec_probe_kind<D, C>(shreds: Seq<Option<RpcShred<D, C>>>) -> Result<ShredType, SamplingError> {
    match shreds[1] {
        None => Err(SamplingError::FirstShredNotFound),
        Some(s) => if s.shred_data is Some {
            Ok(ShredType::Data)
        } else if s.shred_code is Some {
            Ok(ShredType::Code)
        } else {
            Err(SamplingError::NeitherDataNorCode)
        },
    }
}

/// Decides from the answer to the probe request (index 0 only) which form of
/// its shred tells how many shreds the slot has.
pub fn probe_shred_kind<D, C>(shreds: &Vec<Option<RpcShred<D, C>>>) -> (r: Result<ShredType, SamplingError>)
    requires
        shreds@.len() > 1,
    ensures
        r == spec_probe_kind(shreds@),
{
    match &shreds[1] {
        None => Err(SamplingError::FirstShredNotFound),
        Some(s) => {
            if s.shred_data.is_some() {
                Ok(ShredType::Data)
            } else if s.shred_code.is_some() {
                Ok(ShredType::Code)
            } else {
                Err(SamplingError::NeitherDataNorCode)
            }
        },
    }
}

/// The leader of the sampled slot, decoded from the answer.
pub fn parse_leader<D, C>(result: &GetShredResult<D, C>) -> (r: Result<Pubkey, SamplingError>)
    ensures
        match r {
            Ok(p) => spec_pubkey_from_str(result.leader@) == Some(p.0@),
            Err(e) => e == SamplingError::InvalidLeader && spec_pubkey_from_str(result.leader@) is None,
        },
{
    match pubkey_from_str(result.leader.as_str()) {
        Some(p) => Ok(p),
        None => Err(SamplingError::InvalidLeader),
    }
}

/// The sequence with each run of equal adjacent entries kept once.
pub open spec fn spec_dedup(s: Seq<Option<ShredId>>) -> Seq<Option<ShredId>>
    decreases s.len(),
{
    if s.len() <= 1 {
        s
    } else if s.last() == s[s.len() - 2] {
        spec_dedup(s.drop_last())
    } else {
        spec_dedup(s.drop_last()).push(s.last())
    }
}

/// The deduplicated sequence ends with the same entry as the given one,
/// and holds no two equal adjacent entries.
proof fn lemma_dedup_shape(s: Seq<Option<ShredId>>)
    ensures
        s.len() > 0 ==> spec_dedup(s).len() > 0 && spec_dedup(s).last() == s.last(),
        s.len() == 0 ==> spec_dedup(s).len() == 0,
        forall|i: int|
            0 <= i < spec_dedup(s).len() - 1 ==> #[trigger] spec_dedup(s)[i] != spec_dedup(s)[i + 1],
    decreases s.len(),
{
    if s.len() > 1 {
        let prev = s.drop_last();
        lemma_dedup_shape(prev);
        assert(prev.last() == s[s.len() - 2]);
    }
}

/// Law: removing adjacent duplicates leaves no two equal entries side by
/// side, and doing it again changes nothing.
pub proof fn lemma_dedup_idempotent(s: Seq<Option<ShredId>>)
    ensures
        forall|i: int|
            0 <= i < spec_dedup(s).len() - 1 ==> #[trigger] spec_dedup(s)[i] != spec_dedup(s)[i + 1],
        spec_dedup(spec_dedup(s)) == spec_dedup(s),
{
    lemma_dedup_shape(s);
    lemma_dedup_of_distinct_adjacent(spec_dedup(s));
}

/// A sequence without equal adjacent entries is its own deduplication.
proof fn lemma_dedup_of_distinct_adjacent(t: Seq<Option<ShredId>>)
    requires
        forall|i: int| 0 <= i < t.len() - 1 ==> #[trigger] t[i] != t[i + 1],
    ensures
        spec_dedup(t) == t,
    decreases t.len(),
{
    if t.len() > 1 {
        let prev = t.drop_last();
        assert forall|i: int| 0 <= i < prev.len() - 1 implies #[trigger] prev[i] != prev[i + 1] by {
            assert(prev[i] == t[i] && prev[i + 1] == t[i + 1]);
        }
        lemma_dedup_of_distinct_adjacent(prev);
        assert(t[t.len() - 2] != t[t.len() - 1]);
        assert(prev.push(t.last()) =~= t);
    }
}

/// Whether the entry is a shred whose index was asked for.
pub open spec fn spec_is_requested(entry: Option<ShredId>, requested: Seq<usize>) -> bool {
    match entry {
        Some(id) => requested.contains(id.1 as usize),
        None => false,
    }
}

/// How many entries are shreds whose index was asked for.
pub open spec fn spec_fulfilled(received: Seq<Option<ShredId>>, requested: Seq<usize>) -> nat
    decreases received.len(),
{
    if received.len() == 0 {
        0
    } else {
        spec_fulfilled(received.drop_last(), requested) + if spec_is_requested(
            received.last(),
            requested,
        ) {
            1nat
        } else {
            0nat
        }
    }
}

/// Law (every requested shred that came back counts, whatever its type): the
/// number of fulfilled requests is the number of received entries that are
/// shreds, of either type, whose index is among the requested indices.
pub proof fn lemma_fulfilled_counts_requested_shreds(
    received: Seq<Option<ShredId>>,
    requested: Seq<usize>,
)
    ensures
        spec_fulfilled(received, requested) == received.filter(
            |e: Option<ShredId>| e is Some && requested.contains(e.unwrap().1 as usize),
        ).len(),
    decreases received.len(),
{
    reveal(Seq::filter);
    if received.len() > 0 {
        lemma_fulfilled_counts_requested_shreds(received.drop_last(), requested);
    }
}

/// Law (how one more received entry changes the count): a shred, of either
/// type, adds one exactly when its index was requested; an empty answer adds
/// nothing.
pub proof fn lemma_fulfilled_one_more(
    received: Seq<Option<ShredId>>,
    requested: Seq<usize>,
    entry: Option<ShredId>,
)
    ensures
        spec_fulfilled(received.push(entry), requested) == spec_fulfilled(received, requested) + match entry {
            Some(id) => if requested.contains(id.1 as usize) {
                1int
            } else {
                0int
            },
            None => 0int,
        },
{
    assert(received.push(entry).drop_last() =~= received);
}

proof fn lemma_fulfilled_bounded(received: Seq<Option<ShredId>>, requested: Seq<usize>)
    ensures
        spec_fulfilled(received, requested) <= received.len(),
    decreases received.len(),
{
    if received.len() > 0 {
        lemma_fulfilled_bounded(received.drop_last(), requested);
    }
}

fn same_entry(a: &Option<ShredId>, b: &Option<ShredId>) -> (r: bool)
    ensures
        r == (*a == *b),
{
    match (a, b) {
        (Some(x), Some(y)) => x.0 == y.0 && x.1 == y.1 && x.2 == y.2,
        (None, None) => true,
        _ => false,
    }
}

/// Keeps one entry of each run of equal adjacent entries, as `Vec::dedup`
/// does.
pub fn dedup_received(received: &Vec<Option<ShredId>>) -> (out: Vec<Option<ShredId>>)
    ensures
        out@ == spec_dedup(received@),
{
    let mut out: Vec<Option<ShredId>> = Vec::new();
    let mut i: usize = 0;
    while i < received.len()
        invariant
            0 <= i <= received@.len(),
            out@ == spec_dedup(received@.take(i as int)),
        decreases received@.len() - i,
    {
        let ghost prefix = received@.take(i as int + 1);
        assert(prefix.drop_last() =~= received@.take(i as int));
        if i == 0 {
            assert(prefix.len() == 1);
            out.push(received[i]);
            assert(out@ =~= prefix);
        } else if same_entry(&received[i], &received[i - 1]) {
            assert(prefix.last() == prefix[prefix.len() - 2]);
        } else {
            out.push(received[i]);
        }
        i = i + 1;
    }
    assert(received@.take(received@.len() as int) =~= received@);
    out
}

/// Whether `index` is among the requested indices.
fn index_requested(requested: &Vec<usize>, index: usize) -> (r: bool)
    ensures
        r == requested@.contains(index),
{
    let mut i: usize = 0;
    while i < requested.len()
        invariant
            0 <= i <= requested@.len(),
            forall|j: int| 0 <= j < i ==> requested@[j] != index,
        decreases requested@.len() - i,
    {
        if requested[i] == index {
            assert(requested@[i as int] == index);
            return true;
        }
        i = i + 1;
    }
    false
}

/// The shreds received for a slot, and how many of them were asked for.
pub struct SampleTally {
    pub received: Vec<Option<ShredId>>,
    pub fulfilled: usize,
}

/// Counts the received shreds whose index was asked for, each entry of
/// `received` once, in the order given (repeated shreds are removed before
/// the ids are taken).
pub fn tally_samples(received: &Vec<Option<ShredId>>, requested: &Vec<usize>) -> (t: SampleTally)
    ensures
        t.received@ == received@,
        t.fulfilled == spec_fulfilled(received@, requested@),
        t.fulfilled == received@.filter(
            |e: Option<ShredId>| e is Some && requested@.contains(e.unwrap().1 as usize),
        ).len(),
        t.fulfilled <= t.received@.len(),
{
    let mut kept: Vec<Option<ShredId>> = Vec::new();
    let mut count: usize = 0;
    let mut i: usize = 0;
    while i < received.len()
        invariant
            0 <= i <= received@.len(),
            kept@ == received@.take(i as int),
            count == spec_fulfilled(received@.take(i as int), requested@),
        decreases received@.len() - i,
    {
        let ghost prefix = received@.take(i as int + 1);
        assert(prefix.drop_last() =~= received@.take(i as int));
        proof {
            lemma_fulfilled_bounded(received@.take(i as int), requested@);
        }
        let entry = received[i];
        match entry {
            Some(id) => {
                if index_requested(requested, id.1 as usize) {
                    count = count + 1;
                }
            },
            None => {},
        }
        kept.push(entry);
        assert(kept@ =~= prefix);
        i = i + 1;
    }
    assert(received@.take(received@.len() as int) =~= received@);
    proof {
        lemma_fulfilled_bounded(received@, requested@);
        lemma_fulfilled_counts_requested_shreds(received@, requested@);
    }
    SampleTally { received: kept, fulfilled: count }
}

impl SampleTally {
    /// Whether fewer shreds came back than were asked for.
    pub fn is_incomplete(&self, requested: &Vec<usize>) -> (r: bool)
        ensures
            r == (self.fulfilled < requested@.len()),
    {
        self.fulfilled < requested.len()
    }
}

/// The parts hashed into the archive key of a shred: its slot, its type byte
/// and its index, each little-endian.
pub open spec fn spec_archive_key_parts(slot: Slot, shred_type: ShredType, index: u32) -> Seq<Seq<u8>> {
    seq![enc_u64(slot), seq![shred_type.spec_byte()], enc_u32(index)]
}

/// The key a verified shred is archived under: the SHA-256 hash of its slot,
/// type and index.
pub fn archive_key(slot: Slot, shred_type: ShredType, index: u32) -> (k: Digest)
    ensures
        k.0@ == spec_sha256_hashv(spec_archive_key_parts(slot, shred_type, index)),
{
    let mut slot_bytes: Vec<u8> = Vec::new();
    push_u64(&mut slot_bytes, slot);
    let mut type_bytes: Vec<u8> = Vec::new();
    type_bytes.push(shred_type.to_byte());
    let mut index_bytes: Vec<u8> = Vec::new();
    push_u32(&mut index_bytes, index);
    let mut parts: Vec<Vec<u8>> = Vec::new();
    parts.push(slot_bytes);
    parts.push(type_bytes);
    parts.push(index_bytes);
    assert(parts@.map_values(|p: Vec<u8>| p@) =~= spec_archive_key_parts(slot, shred_type, index));
    sha256_hashv(&parts)
}

/// A sample holds when both its leader's signature and its Merkle proof
/// check out. `merkle_proof` is the outcome of checking the proof: only a
/// Merkle shred has one, and its check must have run to a verdict.
pub fn verify_sample(signature_valid: bool, merkle_proof: Option<Result<bool, String>>) -> (r: bool)
    requires
        merkle_proof matches Some(Ok(_)),
    ensures
        merkle_proof matches Some(Ok(valid)) && r == (signature_valid && valid),
{
    match merkle_proof {
        Some(Ok(valid)) => signature_valid && valid,
        _ => false,
    }
}

/// Whether every present sample verified.
pub open spec fn spec_all_verified(verdicts: Seq<Option<bool>>) -> bool {
    forall|i: int| 0 <= i < verdicts.len() ==> (#[trigger] verdicts[i] matches Some(v) ==> v)
}

/// A slot passes when every shred that came back verified; missing shreds
/// are skipped.
pub fn all_samples_verified(verdicts: &Vec<Option<bool>>) -> (r: bool)
    ensures
        r == spec_all_verified(verdicts@),
{
    let mut i: usize = 0;
    while i < verdicts.len()
        invariant
            0 <= i <= verdicts@.len(),
            forall|j: int| 0 <= j < i ==> (#[trigger] verdicts@[j] matches Some(v) ==> v),
        decreases verdicts@.len() - i,
    {
        match verdicts[i] {
            Some(false) => {
                return false;
            },
            _ => {},
        }
        i = i + 1;
    }
    true
}

/// A slot notification of the `slotSubscribe` stream.
#[derive(Clone, Debug, Default)]
pub struct SlotSubscribeResult {
    pub parent: i64,
    pub root: i64,
    pub slot: i64,
}

#[derive(Clone, Debug, Default)]
pub struct SlotSubscribeParams {
    pub result: SlotSubscribeResult,
    pub subscription: i64,
}

#[derive(Clone, Debug, Default)]
pub struct SlotSubscribeResponse {
    pub jsonrpc: String,
    pub method: String,
    pub params: SlotSubscribeParams,
}

impl SlotSubscribeResponse {
    /// The slot handed on for sampling: the notification's root, as an
    /// unsigned slot number.
    pub fn root_slot(&self) -> (s: Slot)
        ensures
            s == self.params.result.root as u64,
    {
        self.params.result.root as u64
    }
}

} // verus!
