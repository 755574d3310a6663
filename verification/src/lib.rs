//! A time-locked staking ledger.
//!
//! Participants deposit a base asset for a chosen lock duration and accrue a
//! reward computed from elapsed time and a configured annual rate. An
//! administrator fixes the terms of a ledger once, at creation; after that the
//! ledger is mutated only by stakes (which add a position and bump the
//! aggregate counters) and by claims (which advance a position's claim
//! bookkeeping).
//!
//! The crate is organised around the lifecycle of a [`StakeVault`]:
//! [`StakeVault::initialize`] creates the configuration,
//! [`StakeVault::stake_tokens`] opens a position, and [`StakeVault::claim`]
//! pays out accrued yield. The fixed-point yield arithmetic lives in
//! [`yield_engine`], with every intermediate step checked for overflow.
//!
//! Asset custody, minting of rewards, and the clock are collaborators of the
//! caller: the vault is handed the current slot and the custody balance it
//! needs, decides, and reports what the caller must transfer or mint.

mod errors;
mod yield_engine;
mod config;
mod position;
mod vault;

pub use errors::StakeError;
pub use yield_engine::{
    compute_yield, elapsed_since, lemma_yield_doubling, raw_yield, yield_outcome,
    yield_product_overflows, BASIS_POINT_DENOMINATOR, SLOTS_PER_DAY, SLOTS_PER_YEAR,
};
pub use config::{StakeConfig, MAX_LOCK_DURATIONS};
pub use position::StakingPosition;
pub use vault::{
    has_position, index_of_owner, lemma_aggregates_match_positions, sum_staked, unique_owners,
    StakeVault, TokenMetadataArgs,
};
