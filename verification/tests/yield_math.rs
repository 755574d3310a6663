use stake_vault::{compute_yield, StakeError, SLOTS_PER_DAY, SLOTS_PER_YEAR};

#[test]
fn slot_constants() {
    assert_eq!(SLOTS_PER_DAY, 216_000);
    assert_eq!(SLOTS_PER_YEAR, 78_840_000);
    assert_eq!(SLOTS_PER_YEAR, 365 * SLOTS_PER_DAY);
}

#[test]
fn one_year_yield_example() {
    // 1_000_000 staked at 500 basis points for exactly one year of slots.
    assert_eq!(compute_yield(1_000_000, 500, 78_840_000), Ok(50_000));
}

#[test]
fn half_year_yield_is_half() {
    assert_eq!(compute_yield(1_000_000, 500, 39_420_000), Ok(25_000));
}

#[test]
fn zero_elapsed_accrues_no_yield() {
    assert_eq!(
        compute_yield(1_000_000, 500, 0),
        Err(StakeError::NoYieldAccrued)
    );
}

#[test]
fn tiny_yield_rounds_to_zero() {
    assert_eq!(compute_yield(1, 1, 1), Err(StakeError::NoYieldAccrued));
    // One slot short of the first whole unit still rounds down to zero.
    assert_eq!(
        compute_yield(10_000, 10_000, SLOTS_PER_YEAR / 10_000 - 1),
        Err(StakeError::NoYieldAccrued)
    );
}

#[test]
fn overflowing_product_faults() {
    // amount * rate fits the widened precision, but multiplying by the
    // elapsed time does not.
    assert_eq!(
        compute_yield(u64::MAX, u64::MAX, 2),
        Err(StakeError::ArithmeticFault)
    );
}

#[test]
fn oversized_yield_faults_instead_of_truncating() {
    // The product fits in 128 bits, but the final yield exceeds 64 bits:
    // u64::MAX * 10_000 * (2 years) / 10_000 / (1 year) == 2 * u64::MAX.
    assert_eq!(
        compute_yield(u64::MAX, 10_000, 2 * SLOTS_PER_YEAR),
        Err(StakeError::ArithmeticFault)
    );
}

#[test]
fn full_rate_full_year_returns_stake() {
    // 10_000 basis points over one year yields exactly the staked amount.
    assert_eq!(compute_yield(123_456_789, 10_000, SLOTS_PER_YEAR), Ok(123_456_789));
}
