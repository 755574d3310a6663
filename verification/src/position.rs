use vstd::prelude::*;

verus! {

/// One participant's stake on one ledger.
///
/// A position is created exactly once, by a successful stake, and mutated only
/// by successful claims, which advance `last_claim_slot` and accumulate
/// `total_claimed`. No other field ever changes, and this core defines no
/// withdrawal path.
#[derive(Clone, Copy, Debug, PartialEq, Eq, Structural)]
pub struct StakingPosition {
    /// Identity of the staking participant.
    pub user: u64,
    /// The admin identity of the ledger this position belongs to.
    pub stake_config: u64,
    /// The deposited quantity, fixed at creation.
    pub amount_staked: u64,
    /// The slot at which the position was created.
    pub stake_slot: u64,
    /// `stake_slot` plus the chosen lock duration converted to slots.
    pub unlock_slot: u64,
    /// The slot of the most recent successful claim; starts at `stake_slot`.
    pub last_claim_slot: u64,
    /// Cumulative amount paid out by claims on this position.
    pub total_claimed: u64,
}

impl StakingPosition {
    /// The position's invariant: the unlock slot does not precede creation,
    /// and the claim bookkeeping never points before creation.
    pub open spec fn wf(&self) -> bool {
        &&& self.unlock_slot >= self.stake_slot
        &&& self.last_claim_slot >= self.stake_slot
    }
}

} // verus!
