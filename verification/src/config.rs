use vstd::prelude::*;

verus! {

/// A ledger's configuration may allow at most this many lock durations.
pub const MAX_LOCK_DURATIONS: usize = 5;

/// The administrator-fixed terms of one staking ledger, together with its
/// aggregate counters.
///
/// Identities (the administrator and the two asset kinds) are opaque ids
/// assigned by the host platform. `admin`, the asset ids, `base_yield_rate`
/// and `lock_durations` are fixed at creation; only the two counters change,
/// and only by a successful stake.
pub struct StakeConfig {
    /// Identity of the controlling authority; also keys the ledger, so each
    /// administrator owns at most one.
    pub admin: u64,
    /// Identity of the asset participants deposit.
    pub deposit_mint: u64,
    /// Identity of the asset claims are paid in.
    pub reward_mint: u64,
    /// Annual yield in basis points (10_000 = 100%).
    pub base_yield_rate: u64,
    /// The lock durations, in days, a stake may choose from; at most
    /// [`MAX_LOCK_DURATIONS`] entries.
    pub lock_durations: Vec<u64>,
    /// Running sum of all amounts ever staked into this ledger.
    pub total_staked: u64,
    /// Running count of positions ever created on this ledger.
    pub total_positions: u64,
}

impl StakeConfig {
    /// The configuration's invariant: the allowed set of lock durations is
    /// within its cardinality bound.
    pub open spec fn wf(&self) -> bool {
        self.lock_durations@.len() <= MAX_LOCK_DURATIONS
    }

    /// Whether a stake on this ledger may lock for `days`.
    pub open spec fn allows_duration(&self, days: u64) -> bool {
        self.lock_durations@.contains(days)
    }

    /// Decides whether `days` is one of the configured lock durations.
    pub fn contains_duration(&self, days: u64) -> (r: bool)
        ensures
            r == self.allows_duration(days),
    {
        let mut i: usize = 0;
        while i < self.lock_durations.len()
            invariant
                i <= self.lock_durations@.len(),
                forall|j: int| 0 <= j < i ==> self.lock_durations@[j] != days,
            decreases self.lock_durations@.len() - i,
        {
            if self.lock_durations[i] == days {
                assert(self.lock_durations@.contains(days));
                return true;
            }
            i += 1;
        }
        assert(!self.lock_durations@.contains(days));
        false
    }
}

} // verus!
