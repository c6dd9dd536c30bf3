//! Checking the vote transactions of a slot against the trusted validator
//! set: each vote must be a vote-program transaction signed by a trusted
//! validator, and its signature must hold.

use crate::primitives::{
    pubkey_from_str, pubkey_to_string, signature_from_str, spec_pubkey_to_string,
    spec_signature_from_str, spec_signature_verify, Pubkey, Signature,
};
use vstd::prelude::*;

verus! {

/// The answer to a `getVoteSignatures` request: the vote signatures, base58
/// encoded, and the vote messages in their wire encoding.
#[derive(Clone, Debug, Default)]
pub struct GetVoteSignaturesResult {
    pub vote_signature: Vec<String>,
    pub vote_messages: Vec<Vec<u8>>,
}

#[derive(Clone, Debug, Default)]
pub struct GetVoteSignaturesResponse {
    pub jsonrpc: String,
    pub result: GetVoteSignaturesResult,
    pub id: i64,
}

/// The address of the vote program, `Vote111111111111111111111111111111111111111`.
pub open spec fn spec_vote_program_id() -> Seq<u8> {
    seq![
        7u8, 97u8, 72u8, 29u8, 53u8, 116u8, 116u8, 187u8, 124u8, 77u8, 118u8, 36u8, 235u8, 211u8,
        189u8, 179u8, 216u8, 53u8, 94u8, 115u8, 209u8, 16u8, 67u8, 252u8, 13u8, 163u8, 83u8, 128u8,
        0u8, 0u8, 0u8, 0u8,
    ]
}

/// The address of the vote program.
pub fn vote_program_id() -> (p: Pubkey)
    ensures
        p.0@ == spec_vote_program_id(),
{
    let p = Pubkey(
        [
            7u8, 97u8, 72u8, 29u8, 53u8, 116u8, 116u8, 187u8, 124u8, 77u8, 118u8, 36u8, 235u8,
            211u8, 189u8, 179u8, 216u8, 53u8, 94u8, 115u8, 209u8, 16u8, 67u8, 252u8, 13u8, 163u8,
            83u8, 128u8, 0u8, 0u8, 0u8, 0u8,
        ],
    );
    assert(p.0@ =~= spec_vote_program_id());
    p
}

/// What a vote check reads of a transaction message: the accounts it
/// names, the signer first, and the bytes its signature covers.
#[derive(Clone, Debug)]
pub struct VoteMessage {
    pub account_keys: Vec<Pubkey>,
    pub bytes: Vec<u8>,
}

impl VoteMessage {
    pub open spec fn spec_keys(self) -> Seq<Seq<u8>> {
        self.account_keys@.map_values(|k: Pubkey| k.0@)
    }
}

/// The accounts and signed bytes of the `solana_sdk::message::Message`
/// that `bincode` decodes from `raw`, or `None` where decoding fails.
pub uninterp spec fn spec_vote_message(raw: Seq<u8>) -> Option<(Seq<Seq<u8>>, Seq<u8>)>;

/// Calls `bincode::deserialize` for a `solana_sdk::message::Message`, then
/// reads its account keys and re-encodes it with `Message::serialize`.
/// Claims that the outcome is `spec_vote_message` of the raw bytes.
#[verifier::external_body]
pub(crate) fn decode_vote_message(raw: &[u8]) -> (r: Option<VoteMessage>)
    ensures
        match r {
            Some(m) => spec_vote_message(raw@) == Some((m.spec_keys(), m.bytes@)),
            None => spec_vote_message(raw@) is None,
        },
{
    match bincode::deserialize::<solana_sdk::message::Message>(raw) {
        Ok(m) => Some(
            VoteMessage {
                account_keys: m.account_keys.iter().map(|k| Pubkey(k.to_bytes())).collect(),
                bytes: m.serialize(),
            },
        ),
        Err(_) => None,
    }
}

/// The signatures that decode, in order; the others are dropped.
pub open spec fn spec_parsed_signatures(texts: Seq<String>) -> Seq<Seq<u8>>
    decreases texts.len(),
{
    if texts.len() == 0 {
        Seq::empty()
    } else {
        let rest = spec_parsed_signatures(texts.drop_last());
        match spec_signature_from_str(texts.last()@) {
            Some(s) => rest.push(s),
            None => rest,
        }
    }
}

/// Decodes the base58 vote signatures, skipping those that do not decode.
pub fn parse_vote_signatures(texts: &Vec<String>) -> (sigs: Vec<Signature>)
    ensures
        sigs@.map_values(|s: Signature| s.0@) == spec_parsed_signatures(texts@),
{
    let mut sigs: Vec<Signature> = Vec::new();
    let mut i: usize = 0;
    while i < texts.len()
        invariant
            0 <= i <= texts@.len(),
            sigs@.map_values(|s: Signature| s.0@) == spec_parsed_signatures(texts@.take(i as int)),
        decreases texts@.len() - i,
    {
        let ghost before = sigs@;
        assert(texts@.take(i as int + 1).drop_last() =~= texts@.take(i as int));
        match signature_from_str(texts[i].as_str()) {
            Some(s) => {
                sigs.push(s);
                assert(sigs@.map_values(|s: Signature| s.0@) =~= before.map_values(
                    |s: Signature| s.0@,
                ).push(s.0@));
            },
            None => {},
        }
        i = i + 1;
    }
    assert(texts@.take(texts@.len() as int) =~= texts@);
    sigs
}

/// Decodes every vote message; `None` as soon as one does not decode.
pub fn decode_vote_messages(raws: &Vec<Vec<u8>>) -> (r: Option<Vec<VoteMessage>>)
    ensures
        r is Some <==> forall|i: int| 0 <= i < raws@.len() ==> (#[trigger] spec_vote_message(raws@[i]@)) is Some,
        r matches Some(ms) ==> ms@.len() == raws@.len() && forall|i: int| 0 <= i < raws@.len()
            ==> spec_vote_message(raws@[i]@) == Some((#[trigger] ms@[i].spec_keys(), ms@[i].bytes@)),
{
    let mut ms: Vec<VoteMessage> = Vec::new();
    let mut i: usize = 0;
    while i < raws.len()
        invariant
            0 <= i <= raws@.len(),
            ms@.len() == i,
            forall|j: int| 0 <= j < i ==> (#[trigger] spec_vote_message(raws@[j]@)) is Some,
            forall|j: int| 0 <= j < i ==> spec_vote_message(raws@[j]@) == Some(
                (#[trigger] ms@[j].spec_keys(), ms@[j].bytes@),
            ),
        decreases raws@.len() - i,
    {
        match decode_vote_message(raws[i].as_slice()) {
            Some(m) => {
                ms.push(m);
                assert(ms@[i as int].spec_keys() == m.spec_keys());
            },
            None => {
                return None;
            },
        }
        i = i + 1;
    }
    Some(ms)
}

/// Why checking the votes of a slot stopped.
#[derive(Clone, Copy, Debug, PartialEq, Eq, Structural)]
pub enum VoteErrorKind {
    /// The message names no account, so it has no signer.
    MissingSigner,
    /// The message does not involve the vote program.
    NotAVoteTransaction,
    /// The signer is not in the trusted validator set.
    UntrustedValidator,
}

/// A vote check that stopped, with the position of the offending vote.
#[derive(Clone, Copy, Debug, PartialEq, Eq, Structural)]
pub struct VoteError {
    pub kind: VoteErrorKind,
    pub index: usize,
}

/// The verdict on a vote that could be checked: its signer, its position
/// among the pairs, and whether the signer's signature over the message
/// holds.
#[derive(Clone, Copy, Debug)]
pub struct CheckedVote {
    pub validator: Pubkey,
    pub index: usize,
    pub valid: bool,
}

/// What a check of a slot's votes found: the verdicts on the pairs checked,
/// in order, and the error that stopped the check, if one did.
#[derive(Clone, Debug)]
pub struct VoteReport {
    pub votes: Vec<CheckedVote>,
    pub error: Option<VoteError>,
}

impl VoteReport {
    /// The verdicts as (signer's key bytes, position, whether it holds).
    pub open spec fn spec_votes(self) -> Seq<(Seq<u8>, int, bool)> {
        self.votes@.map_values(|v: CheckedVote| (v.validator.0@, v.index as int, v.valid))
    }

    /// The error as (kind, position), if any.
    pub open spec fn spec_error(self) -> Option<(VoteErrorKind, int)> {
        match self.error {
            Some(e) => Some((e.kind, e.index as int)),
            None => None,
        }
    }
}

/// Whether the message names the vote program among its accounts.
pub open spec fn spec_names_vote_program(keys: Seq<Seq<u8>>) -> bool {
    exists|i: int| 0 <= i < keys.len() && keys[i] == spec_vote_program_id()
}

/// Whether the validator set holds an entry whose key is `key_text`.
pub open spec fn spec_is_trusted(validator_set: Seq<(String, u64)>, key_text: Seq<char>) -> bool {
    exists|i: int| 0 <= i < validator_set.len() && validator_set[i].0@ == key_text
}

/// The verdict on one vote: an error where it cannot be checked, otherwise
/// whether its signer's signature over the message holds.
pub open spec fn spec_vote_verdict(
    validator_set: Seq<(String, u64)>,
    sig: Seq<u8>,
    m: VoteMessage,
) -> Result<bool, VoteErrorKind> {
    let keys = m.spec_keys();
    if keys.len() == 0 {
        Err(VoteErrorKind::MissingSigner)
    } else if !spec_names_vote_program(keys) {
        Err(VoteErrorKind::NotAVoteTransaction)
    } else if !spec_is_trusted(validator_set, spec_pubkey_to_string(keys[0])) {
        Err(VoteErrorKind::UntrustedValidator)
    } else {
        Ok(spec_signature_verify(sig, keys[0], m.bytes@))
    }
}

/// The verdicts on the first `n` pairs, in order, as (signer, position,
/// whether the signature holds), up to the first pair that cannot be checked;
/// with that pair's error and position, if one was met.
pub open spec fn spec_check_votes(
    validator_set: Seq<(String, u64)>,
    sigs: Seq<Signature>,
    msgs: Seq<VoteMessage>,
    n: nat,
) -> (Seq<(Seq<u8>, int, bool)>, Option<(VoteErrorKind, int)>)
    decreases n,
{
    if n == 0 {
        (Seq::empty(), None)
    } else {
        let k = n - 1;
        let (acc, err) = spec_check_votes(validator_set, sigs, msgs, (n - 1) as nat);
        if err is Some {
            (acc, err)
        } else {
            match spec_vote_verdict(validator_set, sigs[k].0@, msgs[k]) {
                Err(kind) => (acc, Some((kind, k))),
                Ok(valid) => (acc.push((msgs[k].spec_keys()[0], k, valid)), None),
            }
        }
    }
}

/// Once the check has stopped on an error, checking more pairs changes
/// nothing.
proof fn lemma_check_votes_error_persists(
    validator_set: Seq<(String, u64)>,
    sigs: Seq<Signature>,
    msgs: Seq<VoteMessage>,
    k: nat,
    m: nat,
)
    requires
        k <= m,
        spec_check_votes(validator_set, sigs, msgs, k).1 is Some,
    ensures
        spec_check_votes(validator_set, sigs, msgs, m) == spec_check_votes(validator_set, sigs, msgs, k),
    decreases m,
{
    if m > k {
        lemma_check_votes_error_persists(validator_set, sigs, msgs, k, (m - 1) as nat);
    }
}

/// Law (only trusted votes get a verdict): every verdict the check gives on
/// the first `n` pairs is on one of those pairs whose message is signed
/// first by a key whose text is the key of an entry of the validator set and
/// names the vote program among its accounts; the verdict names that signer
/// and says whether its signature over the message holds. The verdicts come
/// in the order of the pairs.
pub proof fn lemma_verdicts_are_trusted_votes(
    validator_set: Seq<(String, u64)>,
    sigs: Seq<Signature>,
    msgs: Seq<VoteMessage>,
    n: nat,
)
    requires
        n <= sigs.len(),
        n <= msgs.len(),
    ensures
        ({
            let verdicts = spec_check_votes(validator_set, sigs, msgs, n).0;
            forall|j: int|
                0 <= j < verdicts.len() ==> {
                    let (key, i, valid) = #[trigger] verdicts[j];
                    &&& 0 <= i < n
                    &&& msgs[i].spec_keys().len() > 0
                    &&& key == msgs[i].spec_keys()[0]
                    &&& exists|a: int|
                        0 <= a < msgs[i].spec_keys().len() && msgs[i].spec_keys()[a]
                            == spec_vote_program_id()
                    &&& exists|e: int|
                        0 <= e < validator_set.len() && validator_set[e].0@ == spec_pubkey_to_string(key)
                    &&& valid == spec_signature_verify(sigs[i].0@, key, msgs[i].bytes@)
                }
        }),
        ({
            let verdicts = spec_check_votes(validator_set, sigs, msgs, n).0;
            forall|j: int, l: int| 0 <= j < l < verdicts.len() ==> #[trigger] verdicts[j].1 < #[trigger] verdicts[l].1
        }),
    decreases n,
{
    if n > 0 {
        lemma_verdicts_are_trusted_votes(validator_set, sigs, msgs, (n - 1) as nat);
        let prev = spec_check_votes(validator_set, sigs, msgs, (n - 1) as nat);
        let cur = spec_check_votes(validator_set, sigs, msgs, n);
        if prev.1 is None {
            let k = n - 1;
            match spec_vote_verdict(validator_set, sigs[k].0@, msgs[k]) {
                Err(_) => {},
                Ok(valid) => {
                    assert(cur.0 == prev.0.push((msgs[k].spec_keys()[0], k, valid)));
                    assert forall|j: int| 0 <= j < prev.0.len() implies #[trigger] prev.0[j].1 < k by {
                        let (key, i, v) = prev.0[j];
                        assert(i < n - 1);
                    }
                    assert forall|j: int| 0 <= j < cur.0.len() implies {
                        let (key, i, valid) = #[trigger] cur.0[j];
                        &&& 0 <= i < n
                        &&& msgs[i].spec_keys().len() > 0
                        &&& key == msgs[i].spec_keys()[0]
                        &&& exists|a: int|
                            0 <= a < msgs[i].spec_keys().len() && msgs[i].spec_keys()[a]
                                == spec_vote_program_id()
                        &&& exists|e: int|
                            0 <= e < validator_set.len() && validator_set[e].0@ == spec_pubkey_to_string(key)
                        &&& valid == spec_signature_verify(sigs[i].0@, key, msgs[i].bytes@)
                    } by {
                        if j < prev.0.len() {
                            assert(cur.0[j] == prev.0[j]);
                            let (key, i, valid) = prev.0[j];
                            assert(0 <= i < n - 1);
                            assert(msgs[i].spec_keys().len() > 0);
                            assert(key == msgs[i].spec_keys()[0]);
                            assert(valid == spec_signature_verify(sigs[i].0@, key, msgs[i].bytes@));
                        } else {
                            let keys = msgs[k].spec_keys();
                            assert(spec_names_vote_program(keys));
                            let a = choose|a: int| 0 <= a < keys.len() && keys[a] == spec_vote_program_id();
                            assert(0 <= a < keys.len() && keys[a] == spec_vote_program_id());
                            assert(spec_is_trusted(validator_set, spec_pubkey_to_string(keys[0])));
                            let e = choose|e: int|
                                0 <= e < validator_set.len() && validator_set[e].0@ == spec_pubkey_to_string(
                                    keys[0],
                                );
                            assert(validator_set[e].0@ == spec_pubkey_to_string(keys[0]));
                            assert(cur.0[j] == (keys[0], k, valid));
                        }
                    }
                    assert forall|j: int, l: int| 0 <= j < l < cur.0.len() implies #[trigger] cur.0[j].1
                        < #[trigger] cur.0[l].1 by {
                        if l < prev.0.len() {
                            assert(cur.0[j] == prev.0[j] && cur.0[l] == prev.0[l]);
                        } else {
                            assert(cur.0[j] == prev.0[j]);
                        }
                    }
                },
            }
        }
    }
}

/// Law (an untrusted signer stops the check): when the check reaches, with
/// no error before it, a pair whose message has a signer and names the vote
/// program, and no entry of the validator set has the signer's key text, the
/// check halts at that position with `UntrustedValidator`, and the
/// verdicts given are only those on the pairs before it.
pub proof fn lemma_untrusted_signer_stops(
    validator_set: Seq<(String, u64)>,
    sigs: Seq<Signature>,
    msgs: Seq<VoteMessage>,
    k: nat,
    n: nat,
)
    requires
        k < n,
        spec_check_votes(validator_set, sigs, msgs, k).1 is None,
        msgs[k as int].spec_keys().len() > 0,
        exists|a: int|
            0 <= a < msgs[k as int].spec_keys().len() && msgs[k as int].spec_keys()[a]
                == spec_vote_program_id(),
        forall|e: int|
            0 <= e < validator_set.len() ==> #[trigger] validator_set[e].0@ != spec_pubkey_to_string(
                msgs[k as int].spec_keys()[0],
            ),
    ensures
        spec_check_votes(validator_set, sigs, msgs, n) == (
            spec_check_votes(validator_set, sigs, msgs, k).0,
            Some((VoteErrorKind::UntrustedValidator, k as int)),
        ),
{
    assert(spec_check_votes(validator_set, sigs, msgs, (k + 1) as nat) == (
        spec_check_votes(validator_set, sigs, msgs, k).0,
        Some((VoteErrorKind::UntrustedValidator, k as int)),
    ));
    lemma_check_votes_error_persists(validator_set, sigs, msgs, (k + 1) as nat, n);
}

/// The number of signature and message pairs: the shorter of the two lists.
pub open spec fn spec_pair_count(sigs: Seq<Signature>, msgs: Seq<VoteMessage>) -> nat {
    if sigs.len() <= msgs.len() {
        sigs.len()
    } else {
        msgs.len()
    }
}

fn names_vote_program(keys: &Vec<Pubkey>) -> (r: bool)
    ensures
        r == spec_names_vote_program(keys@.map_values(|k: Pubkey| k.0@)),
{
    let id = vote_program_id();
    let ghost view = keys@.map_values(|k: Pubkey| k.0@);
    let mut i: usize = 0;
    while i < keys.len()
        invariant
            0 <= i <= keys@.len(),
            id.0@ == spec_vote_program_id(),
            view == keys@.map_values(|k: Pubkey| k.0@),
            forall|j: int| 0 <= j < i ==> view[j] != spec_vote_program_id(),
        decreases keys@.len() - i,
    {
        if keys[i].equals(&id) {
            assert(view[i as int] == spec_vote_program_id());
            return true;
        }
        i = i + 1;
    }
    false
}

fn is_trusted(validator_set: &Vec<(String, u64)>, key_text: &String) -> (r: bool)
    ensures
        r == spec_is_trusted(validator_set@, key_text@),
{
    let mut i: usize = 0;
    while i < validator_set.len()
        invariant
            0 <= i <= validator_set@.len(),
            forall|j: int| 0 <= j < i ==> validator_set@[j].0@ != key_text@,
        decreases validator_set@.len() - i,
    {
        if validator_set[i].0 == *key_text {
            return true;
        }
        i = i + 1;
    }
    false
}

/// Checks one vote against the validator set.
fn vote_verdict(validator_set: &Vec<(String, u64)>, sig: &Signature, m: &VoteMessage) -> (r: Result<
    bool,
    VoteErrorKind,
>)
    ensures
        r == spec_vote_verdict(validator_set@, sig.0@, *m),
{
    let ghost keys = m.spec_keys();
    if m.account_keys.len() == 0 {
        return Err(VoteErrorKind::MissingSigner);
    }
    if !names_vote_program(&m.account_keys) {
        return Err(VoteErrorKind::NotAVoteTransaction);
    }
    let signer = m.account_keys[0];
    assert(signer.0@ == keys[0]);
    let signer_text = pubkey_to_string(&signer);
    if !is_trusted(validator_set, &signer_text) {
        return Err(VoteErrorKind::UntrustedValidator);
    }
    match pubkey_from_str(signer_text.as_str()) {
        Some(validator) => Ok(sig.verify(validator.0.as_slice(), m.bytes.as_slice())),
        None => Err(VoteErrorKind::UntrustedValidator),
    }
}

/// Checks the votes of a slot pair by pair (signatures and messages taken in
/// step, up to the shorter list), and reports the verdict on each pair in
/// order: its signer and whether the signer's signature holds. A pair that is
/// no vote transaction, or whose signer is missing or untrusted, stops the
/// check: the report then holds the verdicts on the pairs before it, and the
/// error with its position.
pub fn check_votes(
    validator_set: &Vec<(String, u64)>,
    sigs: &Vec<Signature>,
    msgs: &Vec<VoteMessage>,
) -> (r: VoteReport)
    ensures
        (r.spec_votes(), r.spec_error()) == spec_check_votes(
            validator_set@,
            sigs@,
            msgs@,
            spec_pair_count(sigs@, msgs@),
        ),
{
    let n: usize = if sigs.len() <= msgs.len() {
        sigs.len()
    } else {
        msgs.len()
    };
    let mut votes: Vec<CheckedVote> = Vec::new();
    let mut k: usize = 0;
    while k < n
        invariant
            0 <= k <= n,
            n == spec_pair_count(sigs@, msgs@),
            n <= sigs@.len(),
            n <= msgs@.len(),
            spec_check_votes(validator_set@, sigs@, msgs@, k as nat) == (
                votes@.map_values(|v: CheckedVote| (v.validator.0@, v.index as int, v.valid)),
                None::<(VoteErrorKind, int)>,
            ),
        decreases n - k,
    {
        let ghost before = votes@;
        match vote_verdict(validator_set, &sigs[k], &msgs[k]) {
            Err(kind) => {
                proof {
                    lemma_check_votes_error_persists(
                        validator_set@,
                        sigs@,
                        msgs@,
                        (k + 1) as nat,
                        n as nat,
                    );
                }
                let report = VoteReport { votes, error: Some(VoteError { kind, index: k }) };
                assert(report.spec_votes() =~= before.map_values(
                    |v: CheckedVote| (v.validator.0@, v.index as int, v.valid),
                ));
                return report;
            },
            Ok(valid) => {
                let signer = msgs[k].account_keys[0];
                assert(signer.0@ == msgs@[k as int].spec_keys()[0]);
                votes.push(CheckedVote { validator: signer, index: k, valid });
                assert(votes@.map_values(|v: CheckedVote| (v.validator.0@, v.index as int, v.valid))
                    =~= before.map_values(
                    |v: CheckedVote| (v.validator.0@, v.index as int, v.valid),
                ).push((signer.0@, k as int, valid)));
            },
        }
        k = k + 1;
    }
    let report = VoteReport { votes, error: None };
    assert(report.spec_votes() =~= votes@.map_values(
        |v: CheckedVote| (v.validator.0@, v.index as int, v.valid),
    ));
    report
}

} // verus!
