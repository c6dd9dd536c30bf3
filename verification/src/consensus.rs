//! Checking that a slot was voted on by enough stake.

use vstd::prelude::*;

verus! {

/// How many votes of lockout history a commitment records per depth.
pub const MAX_LOCKOUT_HISTORY: usize = 31usize;

/// The stake that voted on a block, per confirmation depth.
pub type BlockCommitmentArray = [u64; 32];

/// The commitment of a block: the stake per confirmation depth, when the
/// node knows it, and the total active stake.
#[derive(Clone, Debug, Default)]
pub struct RpcBlockCommitment<T> {
    pub commitment: Option<T>,
    pub total_stake: u64,
}

/// The answer to a `getBlockCommitment` request.
#[derive(Clone, Debug, Default)]
pub struct GetCommittmentResponse {
    pub jsonrpc: String,
    pub result: RpcBlockCommitment<BlockCommitmentArray>,
    pub id: i64,
}

/// The sum of the entries.
pub open spec fn stake_sum(s: Seq<u64>) -> int
    decreases s.len(),
{
    if s.len() == 0 {
        0
    } else {
        stake_sum(s.drop_last()) + s.last()
    }
}

/// The stake that voted on the block: the sum over all depths, or 0 when
/// the commitment is unknown.
pub open spec fn spec_voted_stake(c: RpcBlockCommitment<BlockCommitmentArray>) -> int {
    match c.commitment {
        Some(a) => stake_sum(a@),
        None => 0,
    }
}

proof fn lemma_stake_sum_prefix(s: Seq<u64>, i: int)
    requires
        0 <= i <= s.len(),
    ensures
        stake_sum(s.subrange(0, i)) <= stake_sum(s),
        stake_sum(s.subrange(0, i)) >= 0,
    decreases s.len() - i,
{
    if i == s.len() {
        assert(s.subrange(0, i) =~= s);
        lemma_stake_sum_nonneg(s);
    } else {
        lemma_stake_sum_prefix(s, i + 1);
        assert(s.subrange(0, i + 1).drop_last() =~= s.subrange(0, i));
        lemma_stake_sum_nonneg(s.subrange(0, i));
    }
}

proof fn lemma_stake_sum_nonneg(s: Seq<u64>)
    ensures
        stake_sum(s) >= 0,
    decreases s.len(),
{
    if s.len() > 0 {
        lemma_stake_sum_nonneg(s.drop_last());
    }
}

/// The stake that voted on the block (see `spec_voted_stake`); the sum must
/// fit in a `u64`.
pub fn voted_stake(slot_commitment: &RpcBlockCommitment<BlockCommitmentArray>) -> (sum: u64)
    requires
        spec_voted_stake(*slot_commitment) <= u64::MAX,
    ensures
        sum == spec_voted_stake(*slot_commitment),
{
    match &slot_commitment.commitment {
        None => 0,
        Some(a) => {
            let ghost s = a@;
            let mut sum: u64 = 0;
            let mut i: usize = 0;
            while i < 32
                invariant
                    s == a@,
                    s.len() == 32,
                    stake_sum(s) <= u64::MAX,
                    0 <= i <= 32,
                    sum == stake_sum(s.subrange(0, i as int)),
                decreases 32 - i,
            {
                proof {
                    lemma_stake_sum_prefix(s, i + 1);
                    assert(s.subrange(0, i + 1).drop_last() =~= s.subrange(0, i as int));
                }
                sum = sum + a[i];
                i = i + 1;
            }
            assert(s.subrange(0, 32) =~= s);
            sum
        },
    }
}

/// The stake that voted on the block, or `None` when the sum does not fit
/// in a `u64`.
pub fn checked_voted_stake(slot_commitment: &RpcBlockCommitment<BlockCommitmentArray>) -> (r: Option<u64>)
    ensures
        match r {
            Some(total) => total == spec_voted_stake(*slot_commitment),
            None => spec_voted_stake(*slot_commitment) > u64::MAX,
        },
{
    match &slot_commitment.commitment {
        None => Some(0),
        Some(a) => {
            let ghost s = a@;
            let mut sum: u64 = 0;
            let mut i: usize = 0;
            while i < 32
                invariant
                    s == a@,
                    s.len() == 32,
                    spec_voted_stake(*slot_commitment) == stake_sum(s),
                    0 <= i <= 32,
                    sum == stake_sum(s.subrange(0, i as int)),
                decreases 32 - i,
            {
                proof {
                    assert(s.subrange(0, i + 1).drop_last() =~= s.subrange(0, i as int));
                }
                match sum.checked_add(a[i]) {
                    Some(next) => {
                        sum = next;
                    },
                    None => {
                        proof {
                            lemma_stake_sum_prefix(s, i + 1);
                            assert(stake_sum(s.subrange(0, i + 1)) == stake_sum(
                                s.subrange(0, i as int),
                            ) + s[i as int]);
                            assert(stake_sum(s) > u64::MAX);
                        }
                        return None;
                    },
                }
                i = i + 1;
            }
            assert(s.subrange(0, 32) =~= s);
            Some(sum)
        },
    }
}

} // verus!
