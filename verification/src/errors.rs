use vstd::prelude::*;

verus! {

/// Every way an operation on a [`crate::StakeVault`] can fail.
///
/// Each operation either commits all of its state changes or returns one of
/// these and changes nothing.
#[derive(Clone, Copy, Debug, PartialEq, Eq, Structural)]
pub enum StakeError {
    /// The custody collaborator cannot move the requested deposit: the amount
    /// is zero or exceeds the depositor's balance.
    InsufficientFunds,
    /// The requested lock duration is not in the ledger's allowed set, the
    /// allowed set itself is too large, or converting the duration to slots
    /// overflows.
    InvalidLockDuration,
    /// No time has passed since the last claim, or the computed yield rounds
    /// down to zero.
    NoYieldAccrued,
    /// A checked addition or multiplication overflowed.
    ArithmeticFault,
    /// The staker already holds a position on this ledger; positions are
    /// created exactly once and never merged.
    PositionAlreadyExists,
    /// The claimant holds no position on this ledger.
    PositionNotFound,
}

} // verus!
