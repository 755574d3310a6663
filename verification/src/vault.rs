use vstd::prelude::*;

use crate::config::{StakeConfig, MAX_LOCK_DURATIONS};
use crate::errors::StakeError;
use crate::position::StakingPosition;
use crate::yield_engine::{compute_yield, elapsed_since, yield_outcome, SLOTS_PER_DAY};

verus! {

/// The parameters the reward-asset bootstrap collaborator needs when a ledger
/// is created: the caller passes them on to the host's asset-metadata service,
/// which is also instructed to delegate future mint authority to the ledger
/// itself, so that later payouts are self-authorized.
#[derive(Clone, Debug, PartialEq, Eq)]
pub struct TokenMetadataArgs {
    pub name: String,
    pub symbol: String,
    pub uri: String,
    pub decimals: u8,
}

/// The sum of the staked amounts of a sequence of positions.
pub open spec fn sum_staked(s: Seq<StakingPosition>) -> int
    decreases s.len(),
{
    if s.len() == 0 {
        0
    } else {
        sum_staked(s.drop_last()) + s.last().amount_staked
    }
}

/// No two positions in the sequence belong to the same owner.
pub open spec fn unique_owners(s: Seq<StakingPosition>) -> bool {
    forall|i: int, j: int| 0 <= i < j < s.len() ==> s[i].user != s[j].user
}

/// Whether some position in the sequence belongs to `user`.
pub open spec fn has_position(s: Seq<StakingPosition>, user: u64) -> bool {
    exists|i: int| 0 <= i < s.len() && s[i].user == user
}

/// The index of `user`'s position in the sequence; meaningful only where
/// [`has_position`] holds and the owners are unique.
pub open spec fn index_of_owner(s: Seq<StakingPosition>, user: u64) -> int {
    choose|i: int| 0 <= i < s.len() && s[i].user == user
}

/// Appending a position adds exactly its staked amount to the sum.
proof fn lemma_sum_staked_push(s: Seq<StakingPosition>, p: StakingPosition)
    ensures
        sum_staked(s.push(p)) == sum_staked(s) + p.amount_staked,
{
    assert(s.push(p).drop_last() =~= s);
    assert(s.push(p).last() == p);
}

/// Replacing a position with one of the same staked amount keeps the sum.
proof fn lemma_sum_staked_update(s: Seq<StakingPosition>, i: int, p: StakingPosition)
    requires
        0 <= i < s.len(),
        p.amount_staked == s[i].amount_staked,
    ensures
        sum_staked(s.update(i, p)) == sum_staked(s),
    decreases s.len(),
{
    let t = s.update(i, p);
    if i == s.len() - 1 {
        assert(t.drop_last() =~= s.drop_last());
        assert(t.last() == p);
    } else {
        assert(t.drop_last() =~= s.drop_last().update(i, p));
        lemma_sum_staked_update(s.drop_last(), i, p);
        assert(t.last() == s.last());
    }
}

/// With unique owners, [`index_of_owner`] is the one index holding `user`'s
/// position.
proof fn lemma_index_of_owner_agrees(s: Seq<StakingPosition>, user: u64, i: int)
    requires
        unique_owners(s),
        0 <= i < s.len(),
        s[i].user == user,
    ensures
        index_of_owner(s, user) == i,
{
    assert(has_position(s, user));
    let j = index_of_owner(s, user);
    assert(0 <= j < s.len() && s[j].user == user);
    if i < j {
        assert(s[i].user != s[j].user);
    } else if j < i {
        assert(s[j].user != s[i].user);
    }
}

/// One staking ledger: its configuration and every position ever created on
/// it.
///
/// The host's deterministic store resolves an administrator identity to its
/// one ledger and a (ledger, user) pair to its one position; here the vault
/// itself owns the position records and enforces that uniqueness.
pub struct StakeVault {
    pub config: StakeConfig,
    pub positions: Vec<StakingPosition>,
}

impl StakeVault {
    /// The vault's invariant: the configuration is well formed, every
    /// position is well formed, belongs to this ledger and to a distinct
    /// owner, and the aggregate counters agree with the positions.
    pub open spec fn wf(&self) -> bool {
        &&& self.config.wf()
        &&& unique_owners(self.positions@)
        &&& forall|i: int|
            0 <= i < self.positions@.len() ==> (#[trigger] self.positions@[i]).wf()
                && self.positions@[i].stake_config == self.config.admin
        &&& self.config.total_staked as int == sum_staked(self.positions@)
        &&& self.config.total_positions as int == self.positions@.len()
    }

    /// Creates a ledger with the given terms, zero counters and no positions.
    ///
    /// Rejects a set of more than [`MAX_LOCK_DURATIONS`] lock durations; any
    /// yield rate is accepted, rates being non-negative by type. Bootstrapping
    /// the reward asset is the caller's step: it hands the asset-metadata
    /// collaborator a [`TokenMetadataArgs`] and delegates mint authority to
    /// the ledger, aborting creation if the collaborator fails.
    pub fn initialize(
        admin: u64,
        deposit_mint: u64,
        reward_mint: u64,
        base_yield_rate: u64,
        lock_durations: Vec<u64>,
    ) -> (r: Result<StakeVault, StakeError>)
        ensures
            lock_durations@.len() > MAX_LOCK_DURATIONS ==> r == Err::<StakeVault, StakeError>(
                StakeError::InvalidLockDuration,
            ),
            lock_durations@.len() <= MAX_LOCK_DURATIONS ==> (r matches Ok(v)
                && v.wf()
                && v.config.admin == admin
                && v.config.deposit_mint == deposit_mint
                && v.config.reward_mint == reward_mint
                && v.config.base_yield_rate == base_yield_rate
                && v.config.lock_durations@ == lock_durations@
                && v.config.total_staked == 0
                && v.config.total_positions == 0
                && v.positions@.len() == 0),
    {
        if lock_durations.len() > MAX_LOCK_DURATIONS {
            return Err(StakeError::InvalidLockDuration);
        }
        let vault = StakeVault {
            config: StakeConfig {
                admin,
                deposit_mint,
                reward_mint,
                base_yield_rate,
                lock_durations,
                total_staked: 0,
                total_positions: 0,
            },
            positions: Vec::new(),
        };
        Ok(vault)
    }

    /// The exact result of a stake on this vault: the position that would be
    /// created, or the error, in the order the checks are made.
    pub open spec fn stake_outcome(
        self,
        user: u64,
        amount: u64,
        lock_duration_days: u64,
        now: u64,
        user_balance: u64,
    ) -> Result<StakingPosition, StakeError> {
        if has_position(self.positions@, user) {
            Err(StakeError::PositionAlreadyExists)
        } else if lock_duration_days * SLOTS_PER_DAY > u64::MAX {
            Err(StakeError::InvalidLockDuration)
        } else if !self.config.allows_duration(lock_duration_days) {
            Err(StakeError::InvalidLockDuration)
        } else if amount == 0 || amount > user_balance {
            Err(StakeError::InsufficientFunds)
        } else if now + lock_duration_days * SLOTS_PER_DAY > u64::MAX {
            Err(StakeError::InvalidLockDuration)
        } else if self.config.total_staked + amount > u64::MAX {
            Err(StakeError::ArithmeticFault)
        } else if self.config.total_positions + 1 > u64::MAX {
            Err(StakeError::ArithmeticFault)
        } else {
            Ok(
                (StakingPosition {
                    user,
                    stake_config: self.config.admin,
                    amount_staked: amount,
                    stake_slot: now,
                    unlock_slot: (now + lock_duration_days * SLOTS_PER_DAY) as u64,
                    last_claim_slot: now,
                    total_claimed: 0,
                }),
            )
        }
    }

    /// Opens a position for `user`: `amount` of the deposit asset, locked for
    /// `lock_duration_days`, at the current slot `now`.
    ///
    /// `user_balance` is what the custody collaborator reports the user
    /// holds; a zero or uncovered amount fails with `InsufficientFunds`, as
    /// the collaborator itself would refuse the transfer. On success the
    /// caller moves `amount` into ledger custody and commits both together;
    /// the new position starts with `last_claim_slot` at `now` and nothing
    /// claimed, and the aggregate counters grow by `amount` and by one. A user
    /// already holding a position is rejected, never merged. On any error the
    /// vault is unchanged.
    pub fn stake_tokens(
        &mut self,
        user: u64,
        amount: u64,
        lock_duration_days: u64,
        now: u64,
        user_balance: u64,
    ) -> (r: Result<(), StakeError>)
        requires
            old(self).wf(),
        ensures
            final(self).wf(),
            final(self).config.admin == old(self).config.admin,
            final(self).config.deposit_mint == old(self).config.deposit_mint,
            final(self).config.reward_mint == old(self).config.reward_mint,
            final(self).config.base_yield_rate == old(self).config.base_yield_rate,
            final(self).config.lock_durations@ == old(self).config.lock_durations@,
            match old(self).stake_outcome(user, amount, lock_duration_days, now, user_balance) {
                Err(e) => r == Err::<(), StakeError>(e) && *final(self) == *old(self),
                Ok(p) => r == Ok::<(), StakeError>(())
                    && final(self).positions@ == old(self).positions@.push(p)
                    && final(self).config.total_staked == old(self).config.total_staked + amount
                    && final(self).config.total_positions == old(self).config.total_positions + 1,
            },
    {
        if self.find_position_index(user).is_some() {
            return Err(StakeError::PositionAlreadyExists);
        }
        let lock_duration_slots = match lock_duration_days.checked_mul(SLOTS_PER_DAY) {
            Some(slots) => slots,
            None => {
                return Err(StakeError::InvalidLockDuration);
            },
        };
        if !self.config.contains_duration(lock_duration_days) {
            return Err(StakeError::InvalidLockDuration);
        }
        if amount == 0 || amount > user_balance {
            return Err(StakeError::InsufficientFunds);
        }
        let unlock_slot = match now.checked_add(lock_duration_slots) {
            Some(slot) => slot,
            None => {
                return Err(StakeError::InvalidLockDuration);
            },
        };
        let new_total_staked = match self.config.total_staked.checked_add(amount) {
            Some(total) => total,
            None => {
                return Err(StakeError::ArithmeticFault);
            },
        };
        let new_total_positions = match self.config.total_positions.checked_add(1) {
            Some(count) => count,
            None => {
                return Err(StakeError::ArithmeticFault);
            },
        };
        let position = StakingPosition {
            user,
            stake_config: self.config.admin,
            amount_staked: amount,
            stake_slot: now,
            unlock_slot,
            last_claim_slot: now,
            total_claimed: 0,
        };
        proof {
            lemma_sum_staked_push(self.positions@, position);
            assert forall|a: int, b: int|
                0 <= a < b < self.positions@.push(position).len() implies self.positions@.push(
                position,
            )[a].user != self.positions@.push(position)[b].user by {
                if b < self.positions@.len() {
                    assert(self.positions@[a].user != self.positions@[b].user);
                } else {
                    assert(!(exists|k: int|
                        0 <= k < self.positions@.len() && self.positions@[k].user == user));
                    assert(self.positions@[a].user != user);
                }
            }
        }
        self.positions.push(position);
        self.config.total_staked = new_total_staked;
        self.config.total_positions = new_total_positions;
        Ok(())
    }

    /// The exact result of a claim by `user` at slot `now`: the payout, or
    /// the error.
    pub open spec fn claim_outcome(self, user: u64, now: u64) -> Result<u64, StakeError> {
        if !has_position(self.positions@, user) {
            Err(StakeError::PositionNotFound)
        } else {
            let p = self.positions@[index_of_owner(self.positions@, user)];
            match yield_outcome(
                p.amount_staked,
                self.config.base_yield_rate,
                elapsed_since(now, p.last_claim_slot),
            ) {
                Err(e) => Err(e),
                Ok(amount) => if p.total_claimed + amount > u64::MAX {
                    Err(StakeError::ArithmeticFault)
                } else {
                    Ok(amount)
                },
            }
        }
    }

    /// Pays out the yield accrued on `user`'s position since its last claim,
    /// as of slot `now`.
    ///
    /// Only the position's owner can claim: the position is resolved by the
    /// claimant's identity. The payout is the ledger's base rate applied to
    /// the staked amount over the elapsed slots; on success the caller mints
    /// that amount of the reward asset to the user under the ledger's
    /// self-held authority and commits both together. The position's
    /// `last_claim_slot` advances to `now` — it never moves backward — and the
    /// payout accumulates into `total_claimed`. Claims are not gated on
    /// `unlock_slot`: the lock duration fixes when the position unlocks, but
    /// accrued yield may be claimed before then. On any error the vault is
    /// unchanged.
    pub fn claim(&mut self, user: u64, now: u64) -> (r: Result<u64, StakeError>)
        requires
            old(self).wf(),
        ensures
            final(self).wf(),
            final(self).config == old(self).config,
            final(self).positions@.len() == old(self).positions@.len(),
            r == old(self).claim_outcome(user, now),
            r matches Err(_) ==> *final(self) == *old(self),
            r matches Ok(amount) ==> ({
                let i = index_of_owner(old(self).positions@, user);
                let p = old(self).positions@[i];
                &&& now > p.last_claim_slot
                &&& final(self).positions@ == old(self).positions@.update(
                    i,
                    (StakingPosition {
                        last_claim_slot: now,
                        total_claimed: (p.total_claimed + amount) as u64,
                        ..p
                    }),
                )
                &&& final(self).positions@[i].last_claim_slot > p.last_claim_slot
            }),
    {
        let idx = match self.find_position_index(user) {
            Some(i) => i,
            None => {
                return Err(StakeError::PositionNotFound);
            },
        };
        proof {
            lemma_index_of_owner_agrees(self.positions@, user, idx as int);
        }
        let p = self.positions[idx];
        let elapsed: u64 = if now > p.last_claim_slot {
            now - p.last_claim_slot
        } else {
            0
        };
        let amount = match compute_yield(p.amount_staked, self.config.base_yield_rate, elapsed) {
            Ok(amount) => amount,
            Err(e) => {
                return Err(e);
            },
        };
        let new_total_claimed = match p.total_claimed.checked_add(amount) {
            Some(total) => total,
            None => {
                return Err(StakeError::ArithmeticFault);
            },
        };
        let updated = StakingPosition {
            last_claim_slot: now,
            total_claimed: new_total_claimed,
            ..p
        };
        proof {
            lemma_sum_staked_update(self.positions@, idx as int, updated);
        }
        self.positions.set(idx, updated);
        Ok(amount)
    }

    /// Looks up `user`'s position.
    pub fn get_position(&self, user: u64) -> (r: Option<StakingPosition>)
        requires
            self.wf(),
        ensures
            match r {
                Some(p) => has_position(self.positions@, user) && p == self.positions@[
                    index_of_owner(self.positions@, user)
                ],
                None => !has_position(self.positions@, user),
            },
    {
        match self.find_position_index(user) {
            Some(i) => {
                proof {
                    lemma_index_of_owner_agrees(self.positions@, user, i as int);
                }
                Some(self.positions[i])
            },
            None => None,
        }
    }

    /// Finds the index of `user`'s position, scanning the records as the
    /// host's exact lookup would.
    fn find_position_index(&self, user: u64) -> (r: Option<usize>)
        ensures
            match r {
                Some(i) => i < self.positions@.len() && self.positions@[i as int].user == user,
                None => !has_position(self.positions@, user),
            },
    {
        let mut i: usize = 0;
        while i < self.positions.len()
            invariant
                i <= self.positions@.len(),
                forall|j: int| 0 <= j < i ==> self.positions@[j].user != user,
            decreases self.positions@.len() - i,
        {
            if self.positions[i].user == user {
                return Some(i);
            }
            i += 1;
        }
        None
    }
}

/// In every well-formed vault the aggregate counters match the positions: the
/// total staked is the sum of the staked amounts, and the position count is
/// the number of positions. After any run of successful stakes with amounts
/// `a1..aN` on a fresh ledger, the total staked is their sum and the count is
/// `N`.
pub proof fn lemma_aggregates_match_positions(v: &StakeVault)
    requires
        v.wf(),
    ensures
        v.config.total_staked as int == sum_staked(v.positions@),
        v.config.total_positions as int == v.positions@.len(),
{
}

} // verus!
