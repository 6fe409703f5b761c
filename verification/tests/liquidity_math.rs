use tidepool::clmm::errors::TidePoolError;
use tidepool::clmm::math::liquidity_math::{add_liquidity_delta, calculate_fee_growth_inside};

#[test]
fn test_add_positive_delta() {
    let result = add_liquidity_delta(100, 50).unwrap();
    assert_eq!(result, 150);
}

#[test]
fn test_add_negative_delta() {
    let result = add_liquidity_delta(100, -50).unwrap();
    assert_eq!(result, 50);
}

#[test]
fn test_underflow_fails() {
    let result = add_liquidity_delta(50, -100);
    assert!(result.is_err());
}

#[test]
fn test_fee_growth_inside_current_in_range() {
    let result = calculate_fee_growth_inside(
        5,    // current tick in range [0, 10]
        0,    // tick_lower
        10,   // tick_upper
        1000, // global
        200,  // outside lower
        300,  // outside upper
    );
    assert_eq!(result, 500); // 1000 - 200 - 300
}

#[test]
fn test_fee_growth_inside_current_below() {
    let result = calculate_fee_growth_inside(
        -5,   // current tick below range [0, 10]
        0,    // tick_lower
        10,   // tick_upper
        1000, // global
        200,  // outside lower
        300,  // outside upper
    );
    // below = global - outside_lower = 1000 - 200 = 800
    // above = outside_upper = 300
    // inside = 1000 - 800 - 300 = wrapping sub
    let expected = 1000u128.wrapping_sub(800).wrapping_sub(300);
    assert_eq!(result, expected);
}

#[test]
fn liquidity_overflow_is_refused() {
    assert_eq!(add_liquidity_delta(u128::MAX, 1), Err(TidePoolError::MathOverflow));
    assert_eq!(add_liquidity_delta(u128::MAX - 1, 1), Ok(u128::MAX));
    assert_eq!(add_liquidity_delta(50, -50), Ok(0));
}

#[test]
fn adding_then_removing_a_delta_restores_liquidity() {
    let mid = add_liquidity_delta(1_000, 250).unwrap();
    assert_eq!(add_liquidity_delta(mid, -250), Ok(1_000));
}

#[test]
fn fee_growth_inside_current_above() {
    // above the range: below = outside_lower, above = global - outside_upper
    let result = calculate_fee_growth_inside(15, 0, 10, 1000, 200, 300);
    let expected = 1000u128.wrapping_sub(200).wrapping_sub(1000 - 300);
    assert_eq!(result, expected);
}

#[test]
fn fee_growth_inside_at_upper_tick_counts_as_above() {
    // tick_current == tick_upper is outside [lower, upper)
    let at_upper = calculate_fee_growth_inside(10, 0, 10, 1000, 200, 300);
    let above = calculate_fee_growth_inside(11, 0, 10, 1000, 200, 300);
    assert_eq!(at_upper, above);
    // tick_current == tick_lower is inside
    assert_eq!(calculate_fee_growth_inside(0, 0, 10, 1000, 200, 300), 500);
}

#[test]
fn delta_of_i128_min_is_minus_two_to_the_127() {
    assert_eq!(add_liquidity_delta((1u128 << 127) + 5, i128::MIN), Ok(5));
    assert_eq!(add_liquidity_delta(1, i128::MIN), Err(TidePoolError::MathOverflow));
}
