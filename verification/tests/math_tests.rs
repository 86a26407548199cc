use lending::error::ErrorCode;
use lending::interest::{accrue, MAX_EXPONENT, SCALE};
use lending::shares::{amount_to_shares, shares_to_amount};
use lending::valuation::{borrowable_limit, collateral_value, PriceData};

#[test]
fn shares_bootstrap_one_to_one_on_an_empty_pool() {
    assert_eq!(amount_to_shares(123, 0, 0), Ok(123));
    assert_eq!(shares_to_amount(123, 0, 0), Ok(123));
    assert_eq!(amount_to_shares(0, 0, 0), Ok(0));
}

#[test]
fn shares_are_proportional_with_floor_rounding() {
    assert_eq!(amount_to_shares(100, 1000, 800), Ok(80));
    assert_eq!(amount_to_shares(3, 1000, 800), Ok(2));
    assert_eq!(shares_to_amount(80, 1000, 800), Ok(100));
    // A small amount against a large pool still converts instead of
    // truncating to zero before the multiply.
    assert_eq!(amount_to_shares(2, 1_000_000_000_000, 3_000_000_000_000), Ok(6));
}

#[test]
fn mismatched_pool_totals_are_corrupt_state() {
    assert_eq!(amount_to_shares(10, 0, 5), Err(ErrorCode::CorruptState));
    assert_eq!(amount_to_shares(10, 5, 0), Err(ErrorCode::CorruptState));
    assert_eq!(shares_to_amount(10, 0, 5), Err(ErrorCode::CorruptState));
}

#[test]
fn share_conversion_overflow_is_an_arithmetic_error() {
    assert_eq!(amount_to_shares(u64::MAX, 1, u64::MAX), Err(ErrorCode::ArithmeticError));
}

#[test]
fn accrual_over_no_time_is_the_identity() {
    assert_eq!(accrue(987_654_321, 500, 0), Ok(987_654_321));
    assert_eq!(accrue(0, 500, 1000), Ok(0));
}

#[test]
fn accrual_matches_the_fixed_point_exponential() {
    // rate * elapsed == SCALE is an exponent of 1.0; the truncated series
    // gives e scaled by SCALE as 2_718_281_823.
    assert_eq!(accrue(SCALE, 1, SCALE), Ok(2_718_281_823));
    // An exponent of 0.5 gives 1_648_721_267.
    assert_eq!(accrue(SCALE, 1, 500_000_000), Ok(1_648_721_267));
}

#[test]
fn accrual_is_monotone_in_elapsed_time() {
    let base = 5_000_000;
    let rate = 3;
    let mut previous = base;
    for elapsed in [0u64, 1_000, 1_000_000, 100_000_000, 600_000_000] {
        let accrued = accrue(base, rate, elapsed).unwrap();
        assert!(accrued >= previous);
        previous = accrued;
    }
}

#[test]
fn accrual_beyond_the_exponent_cap_is_an_arithmetic_error() {
    assert_eq!(accrue(1, u64::MAX, u64::MAX), Err(ErrorCode::ArithmeticError));
    assert_eq!(accrue(1, 1, MAX_EXPONENT + 1), Err(ErrorCode::ArithmeticError));
    // The cap itself is accepted.
    assert!(accrue(1, 1, MAX_EXPONENT).is_ok());
}

#[test]
fn accrued_balance_overflowing_is_an_arithmetic_error() {
    // e^2 times a balance near the top of the range cannot be represented.
    assert_eq!(accrue(u64::MAX, 1, MAX_EXPONENT), Err(ErrorCode::ArithmeticError));
}

#[test]
fn collateral_value_prices_the_accrued_deposit() {
    let price = PriceData {
        price: 7,
        publish_time: 90,
    };
    // Rate zero: no growth, value is deposit times price.
    assert_eq!(collateral_value(100, 0, 50, &price, 60, 100), Ok(700));
    // Stale observation.
    assert_eq!(
        collateral_value(100, 0, 50, &price, 5, 100),
        Err(ErrorCode::StalePrice)
    );
    // Clock behind the position's last update.
    assert_eq!(
        collateral_value(100, 0, 500, &price, 60, 100),
        Err(ErrorCode::ArithmeticError)
    );
}

#[test]
fn borrowable_limit_scales_by_the_threshold() {
    assert_eq!(borrowable_limit(200, 3), Ok(600));
    assert_eq!(borrowable_limit(u64::MAX, 2), Err(ErrorCode::ArithmeticError));
}
