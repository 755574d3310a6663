use vstd::prelude::*;
use vstd::arithmetic::div_mod::{
    lemma_div_denominator, lemma_fundamental_div_mod, lemma_fundamental_div_mod_converse,
};

use crate::errors::StakeError;

verus! {

/// Slots (the platform's monotonic clock ticks) in one day.
pub const SLOTS_PER_DAY: u64 = 216_000;

/// Slots in one year, used to annualize the yield rate.
pub const SLOTS_PER_YEAR: u64 = 365 * SLOTS_PER_DAY;

/// The yield rate is given in basis points: 10_000 basis points are 100%.
pub const BASIS_POINT_DENOMINATOR: u64 = 10_000;

/// The time elapsed from `last` to `now`; zero when the clock appears to have
/// moved backward.
pub open spec fn elapsed_since(now: u64, last: u64) -> int {
    if now > last {
        now - last
    } else {
        0
    }
}

/// The yield owed on `amount` at `rate` basis points of annual yield after
/// `elapsed` slots: `amount * rate * elapsed / 10_000 / SLOTS_PER_YEAR`,
/// rounded down at each division.
pub open spec fn raw_yield(amount: u64, rate: u64, elapsed: int) -> int {
    amount * rate * elapsed / (BASIS_POINT_DENOMINATOR as int) / (SLOTS_PER_YEAR as int)
}

/// Whether the widened intermediate product of the yield computation exceeds
/// the 128-bit working precision.
pub open spec fn yield_product_overflows(amount: u64, rate: u64, elapsed: int) -> bool {
    amount * rate * elapsed > u128::MAX
}

/// The exact result of the yield computation on the given inputs:
/// `NoYieldAccrued` when no time has passed or the yield rounds down to zero,
/// `ArithmeticFault` when the intermediate product or the final amount does
/// not fit its width, and the yield itself otherwise.
pub open spec fn yield_outcome(amount: u64, rate: u64, elapsed: int) -> Result<u64, StakeError> {
    if elapsed <= 0 {
        Err(StakeError::NoYieldAccrued)
    } else if yield_product_overflows(amount, rate, elapsed) {
        Err(StakeError::ArithmeticFault)
    } else if raw_yield(amount, rate, elapsed) > u64::MAX {
        Err(StakeError::ArithmeticFault)
    } else if raw_yield(amount, rate, elapsed) == 0 {
        Err(StakeError::NoYieldAccrued)
    } else {
        Ok(raw_yield(amount, rate, elapsed) as u64)
    }
}

/// Computes the yield owed on `amount` staked at `rate` basis points of
/// annual yield after `elapsed` slots.
///
/// All multiplications are performed at 128-bit precision and checked;
/// division rounds down, and lost precision is not an error.
pub fn compute_yield(amount: u64, rate: u64, elapsed: u64) -> (r: Result<u64, StakeError>)
    ensures
        r == yield_outcome(amount, rate, elapsed as int),
{
    if elapsed == 0 {
        return Err(StakeError::NoYieldAccrued);
    }
    assert(amount as int * rate as int <= u64::MAX as int * u64::MAX as int)
        by (nonlinear_arith)
        requires amount <= u64::MAX && rate <= u64::MAX,
    ;
    let scaled: u128 = (amount as u128) * (rate as u128);
    let product: u128 = match scaled.checked_mul(elapsed as u128) {
        Some(p) => p,
        None => {
            return Err(StakeError::ArithmeticFault);
        },
    };
    let accrued: u128 = product / (BASIS_POINT_DENOMINATOR as u128) / (SLOTS_PER_YEAR as u128);
    if accrued > u64::MAX as u128 {
        return Err(StakeError::ArithmeticFault);
    }
    if accrued == 0 {
        return Err(StakeError::NoYieldAccrued);
    }
    Ok(accrued as u64)
}

/// Doubling the elapsed time doubles the yield, up to one unit lost to the
/// rounding of the final division; equivalently, halving the elapsed time
/// halves the yield within floor-rounding tolerance.
pub proof fn lemma_yield_doubling(amount: u64, rate: u64, elapsed: int)
    requires
        elapsed >= 0,
    ensures
        2 * raw_yield(amount, rate, elapsed) <= raw_yield(amount, rate, 2 * elapsed),
        raw_yield(amount, rate, 2 * elapsed) <= 2 * raw_yield(amount, rate, elapsed) + 1,
{
    let b = BASIS_POINT_DENOMINATOR as int;
    let s = SLOTS_PER_YEAR as int;
    let d = b * s;
    let x = amount * rate * elapsed;
    let x2 = amount * rate * (2 * elapsed);
    assert(x2 == 2 * x) by (nonlinear_arith)
        requires x == amount * rate * elapsed && x2 == amount * rate * (2 * elapsed),
    ;
    assert(x >= 0) by (nonlinear_arith)
        requires amount >= 0 && rate >= 0 && elapsed >= 0, x == amount * rate * elapsed,
    ;
    lemma_div_denominator(x, b, s);
    lemma_div_denominator(2 * x, b, s);
    let q = x / d;
    let r = x % d;
    lemma_fundamental_div_mod(x, d);
    assert(2 * x == d * (2 * q) + 2 * r) by (nonlinear_arith)
        requires x == d * q + r,
    ;
    if 2 * r < d {
        lemma_fundamental_div_mod_converse(2 * x, d, 2 * q, 2 * r);
    } else {
        assert(2 * x == d * (2 * q + 1) + (2 * r - d)) by (nonlinear_arith)
            requires 2 * x == d * (2 * q) + 2 * r,
        ;
        lemma_fundamental_div_mod_converse(2 * x, d, 2 * q + 1, 2 * r - d);
    }
}

} // verus!
