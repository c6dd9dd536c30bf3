//! The figures the client records per slot and per request.

use crate::primitives::Slot;
use crate::tinydancer::Cluster;
use vstd::prelude::*;

verus! {

/// Configuration of the statistics service.
pub struct StatsServiceConfig {
    pub cluster: Cluster,
}

/// Where statistics are archived, and for how long.
#[derive(Clone, Debug)]
pub struct StatDBConfig {
    pub archive_duration: u64,
    pub archive_path: String,
}

/// The latest slot seen.
#[derive(Clone, Copy, Debug, Default)]
pub struct SlotUpdateStats {
    pub slots: usize,
}

impl SlotUpdateStats {
    /// The figures of a newly seen slot.
    pub fn new(slot: usize) -> (s: SlotUpdateStats)
        ensures
            s.slots == slot,
    {
        SlotUpdateStats { slots: slot }
    }
}

/// What one sampling request of a slot brought back.
#[derive(Clone, Copy, Debug, Default)]
pub struct PerRequestSampleStats {
    pub slot: Slot,
    pub total_sampled: usize,
    pub num_data_shreds: usize,
    pub num_coding_shreds: usize,
}

impl PerRequestSampleStats {
    /// Records a request of `slot`: the number of shreds sampled (every
    /// position of `shreds`, received or not) and the data and coding shred
    /// counts.
    pub fn update<T>(
        &mut self,
        slot: Slot,
        num_data_shreds: usize,
        num_coding_shreds: usize,
        shreds: Vec<Option<T>>,
    )
        ensures
            final(self).slot == slot,
            final(self).total_sampled == shreds@.len(),
            final(self).num_data_shreds == num_data_shreds,
            final(self).num_coding_shreds == num_coding_shreds,
    {
        let total_samples = shreds.len();
        self.slot = slot;
        self.total_sampled = total_samples;
        self.num_data_shreds = num_data_shreds;
        self.num_coding_shreds = num_coding_shreds;
    }
}

/// How many sampled shreds of a slot verified and how many failed.
#[derive(Clone, Copy, Debug, Default)]
pub struct PerRequestVerificationStats {
    pub slot: Slot,
    pub num_verified: usize,
    pub num_failed: usize,
}

impl PerRequestVerificationStats {
    /// Adds the counts of `rhs`; the slot stays.
    pub fn add_assign(&mut self, rhs: Self)
        requires
            old(self).num_verified + rhs.num_verified <= usize::MAX,
            old(self).num_failed + rhs.num_failed <= usize::MAX,
        ensures
            final(self).slot == old(self).slot,
            final(self).num_verified == old(self).num_verified + rhs.num_verified,
            final(self).num_failed == old(self).num_failed + rhs.num_failed,
    {
        self.num_verified += rhs.num_verified;
        self.num_failed += rhs.num_failed;
    }

    /// Replaces the counts; the slot stays.
    pub fn update(&mut self, num_verified: usize, num_failed: usize)
        ensures
            final(self).slot == old(self).slot,
            final(self).num_verified == num_verified,
            final(self).num_failed == num_failed,
    {
        self.num_verified = num_verified;
        self.num_failed = num_failed;
    }
}

/// The rows stored and shown for one round of figures: the slot, the
/// request's (slot, sampled, data, coding) and the verification's (slot,
/// verified, failed), slots truncated to `usize`.
pub fn stat_rows(
    s: SlotUpdateStats,
    r: PerRequestSampleStats,
    v: PerRequestVerificationStats,
) -> (rows: (Vec<usize>, Vec<(usize, usize, usize, usize)>, Vec<(usize, usize, usize)>))
    ensures
        rows.0@ == seq![s.slots],
        rows.1@ == seq![
            (r.slot as usize, r.total_sampled, r.num_data_shreds, r.num_coding_shreds),
        ],
        rows.2@ == seq![(v.slot as usize, v.num_verified, v.num_failed)],
{
    let mut s_vec: Vec<usize> = Vec::new();
    let mut r_vec: Vec<(usize, usize, usize, usize)> = Vec::new();
    let mut v_vec: Vec<(usize, usize, usize)> = Vec::new();
    s_vec.push(s.slots);
    r_vec.push((r.slot as usize, r.total_sampled, r.num_data_shreds, r.num_coding_shreds));
    v_vec.push((v.slot as usize, v.num_verified, v.num_failed));
    assert(s_vec@ =~= seq![s.slots]);
    assert(r_vec@ =~= seq![
        (r.slot as usize, r.total_sampled, r.num_data_shreds, r.num_coding_shreds),
    ]);
    assert(v_vec@ =~= seq![(v.slot as usize, v.num_verified, v.num_failed)]);
    (s_vec, r_vec, v_vec)
}

} // verus!
