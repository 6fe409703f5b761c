use tidepool::clmm::errors::TidePoolError;
use tidepool::clmm::math::sqrt_price_math::{
    get_amount_a_delta, get_amount_b_delta, get_next_sqrt_price_a_up, get_next_sqrt_price_b_down,
};

const ONE_Q64: u128 = 1u128 << 64;

#[test]
fn test_amount_a_delta_zero_liquidity() {
    let result = get_amount_a_delta(ONE_Q64, ONE_Q64 * 2, 0, false).unwrap();
    assert_eq!(result, 0);
}

#[test]
fn test_amount_b_delta_zero_liquidity() {
    let result = get_amount_b_delta(ONE_Q64, ONE_Q64 * 2, 0, false).unwrap();
    assert_eq!(result, 0);
}

#[test]
fn test_amount_a_positive_for_valid_range() {
    let result = get_amount_a_delta(ONE_Q64, ONE_Q64 * 2, 1_000_000, true).unwrap();
    assert!(result > 0);
}

#[test]
fn test_amount_b_positive_for_valid_range() {
    let result = get_amount_b_delta(ONE_Q64, ONE_Q64 * 2, 1_000_000, true).unwrap();
    assert!(result > 0);
}

#[test]
fn amount_a_delta_exact_values() {
    // L * (1/1 - 1/2) = L / 2
    assert_eq!(get_amount_a_delta(ONE_Q64, ONE_Q64 * 2, 1_000_000, true), Ok(500_000));
    assert_eq!(get_amount_a_delta(ONE_Q64, ONE_Q64 * 2, 1_000_000, false), Ok(500_000));
    // 3 / 2 rounds to 1 or 2
    assert_eq!(get_amount_a_delta(ONE_Q64, ONE_Q64 * 2, 3, false), Ok(1));
    assert_eq!(get_amount_a_delta(ONE_Q64, ONE_Q64 * 2, 3, true), Ok(2));
    // L * (1/0.5 - 1/1) = L
    assert_eq!(get_amount_a_delta(ONE_Q64 / 2, ONE_Q64, 12_345, true), Ok(12_345));
}

#[test]
fn amount_b_delta_exact_values() {
    assert_eq!(get_amount_b_delta(ONE_Q64, ONE_Q64 * 2, 1_000_000, true), Ok(1_000_000));
    // half a price unit: L * 0.5, rounded up when odd
    assert_eq!(get_amount_b_delta(ONE_Q64, ONE_Q64 + ONE_Q64 / 2, 3, false), Ok(1));
    assert_eq!(get_amount_b_delta(ONE_Q64, ONE_Q64 + ONE_Q64 / 2, 3, true), Ok(2));
}

#[test]
fn reversed_range_is_refused() {
    assert_eq!(get_amount_a_delta(ONE_Q64 * 2, ONE_Q64, 1_000, true), Err(TidePoolError::MathOverflow));
    assert_eq!(get_amount_b_delta(ONE_Q64 * 2, ONE_Q64, 1_000, true), Err(TidePoolError::MathOverflow));
    // an empty range needs nothing
    assert_eq!(get_amount_b_delta(ONE_Q64, ONE_Q64, 1_000, true), Ok(0));
}

#[test]
fn amount_a_delta_at_price_zero_divides_by_zero() {
    assert_eq!(get_amount_a_delta(0, 2, 1_000, true), Err(TidePoolError::DivisionByZero));
}

#[test]
fn amount_a_delta_beyond_u128_is_refused() {
    assert_eq!(get_amount_a_delta(1, 1u128 << 127, u128::MAX, false), Err(TidePoolError::MathOverflow));
    // an amount that fits in a u128 but not a u64 is refused too
    assert_eq!(get_amount_a_delta(ONE_Q64 / 2, ONE_Q64, (1u128 << 64) + 5, false), Err(TidePoolError::MathOverflow));
    assert_eq!(get_amount_a_delta(ONE_Q64, ONE_Q64 * 2, 1u128 << 70, false), Err(TidePoolError::MathOverflow));
    // the largest amount that fits is given whole
    assert_eq!(get_amount_a_delta(ONE_Q64 / 2, ONE_Q64, u64::MAX as u128, false), Ok(u64::MAX));
}

#[test]
fn amount_b_delta_beyond_u64_is_refused() {
    assert_eq!(get_amount_b_delta(ONE_Q64, ONE_Q64 * 2, ONE_Q64, false), Err(TidePoolError::MathOverflow));
    assert_eq!(get_amount_b_delta(ONE_Q64, ONE_Q64 * 2, ONE_Q64 - 1, false), Ok(u64::MAX));
    // rounding up past u64::MAX is refused as well
    // (2^64 + 1) * (2^64 - 1) / 2^64 = 2^64 - 1 and a remainder
    assert_eq!(get_amount_b_delta(ONE_Q64, ONE_Q64 * 2 - 1, ONE_Q64 + 1, true), Err(TidePoolError::MathOverflow));
    assert_eq!(get_amount_b_delta(ONE_Q64, ONE_Q64 * 2 - 1, ONE_Q64 + 1, false), Ok(u64::MAX));
}

#[test]
fn next_sqrt_price_b_down_without_liquidity_divides_by_zero() {
    assert_eq!(get_next_sqrt_price_b_down(ONE_Q64, 0, 5, true), Err(TidePoolError::DivisionByZero));
    assert_eq!(get_next_sqrt_price_b_down(ONE_Q64, 0, 5, false), Err(TidePoolError::DivisionByZero));
    assert_eq!(get_next_sqrt_price_b_down(ONE_Q64, 0, 0, true), Ok(ONE_Q64));
}

#[test]
fn next_sqrt_price_b_down_moves_by_amount_over_liquidity() {
    assert_eq!(get_next_sqrt_price_b_down(ONE_Q64, 1_000_000, 1_000_000, true), Ok(ONE_Q64 * 2));
    assert_eq!(get_next_sqrt_price_b_down(ONE_Q64 * 2, 1_000_000, 1_000_000, false), Ok(ONE_Q64));
    assert_eq!(get_next_sqrt_price_b_down(ONE_Q64, 1_000_000, 0, true), Ok(ONE_Q64));
    assert_eq!(
        get_next_sqrt_price_b_down(ONE_Q64, 1_000_000, 2_000_000, false),
        Err(TidePoolError::MathOverflow)
    );
}

#[test]
fn next_sqrt_price_a_up_exact_values() {
    // 1000 * 1 / (1000 + 1000 * 1) = 0.5
    assert_eq!(get_next_sqrt_price_a_up(ONE_Q64, 1_000, 1_000, true), Ok(ONE_Q64 / 2));
    // 3000 * 1 / (3000 - 1000 * 1) = 1.5
    assert_eq!(get_next_sqrt_price_a_up(ONE_Q64, 3_000, 1_000, false), Ok(3 * (ONE_Q64 / 2)));
    assert_eq!(get_next_sqrt_price_a_up(ONE_Q64, 3_000, 0, false), Ok(ONE_Q64));
    assert_eq!(get_next_sqrt_price_a_up(ONE_Q64, 1_000, 1_000, false), Err(TidePoolError::DivisionByZero));
    assert_eq!(get_next_sqrt_price_a_up(ONE_Q64, 1_000, 2_000, false), Err(TidePoolError::MathOverflow));
}

#[test]
fn next_sqrt_price_a_up_rounds_up() {
    // raw price 3, L = 1, one unit of A: 3 * 2^64 / (2^64 + 3) = 2.99..., rounded up to 3
    assert_eq!(get_next_sqrt_price_a_up(3, 1, 1, true), Ok(3));
    // a price that would leave u128 is refused
    assert_eq!(get_next_sqrt_price_a_up(u128::MAX, u128::MAX, 1, false), Err(TidePoolError::MathOverflow));
}
