use tidepool::clmm::math::swap_math::compute_swap_step;

const ONE_Q64: u128 = 1u128 << 64;

#[test]
fn test_zero_liquidity_step() {
    let result = compute_swap_step(
        ONE_Q64,
        ONE_Q64 * 2,
        0, // zero liquidity
        1000,
        3000,
        true,
        false,
    )
    .unwrap();

    assert_eq!(result.sqrt_price_next, ONE_Q64 * 2);
    assert_eq!(result.amount_in, 0);
    assert_eq!(result.amount_out, 0);
}

#[test]
fn exact_input_step_that_stops_short_spends_everything() {
    // b -> a: price rises from 1.0 toward 2.0 with L = 1_000_000, which would take 1_000_000 of B
    let result = compute_swap_step(ONE_Q64, ONE_Q64 * 2, 1_000_000, 500_000, 3000, true, false).unwrap();
    let quotient = (498_500u128 << 64) / 1_000_000;
    assert_eq!(result.sqrt_price_next, ONE_Q64 + quotient);
    assert_eq!(result.amount_in, 498_500);
    assert_eq!(result.fee_amount, 1_500);
    assert_eq!(result.amount_in + result.fee_amount, 500_000);
    // A out: L * (1/1 - 1/next) = L * quotient / (2^64 + quotient), rounded down
    assert_eq!(result.amount_out as u128, 1_000_000 * quotient / (ONE_Q64 + quotient));
}

#[test]
fn exact_input_step_that_reaches_the_target() {
    let result = compute_swap_step(ONE_Q64, ONE_Q64 * 2, 1_000_000, 10_000_000, 3000, true, false).unwrap();
    assert_eq!(result.sqrt_price_next, ONE_Q64 * 2);
    assert_eq!(result.amount_in, 1_000_000);
    assert_eq!(result.fee_amount, 3_000);
    assert_eq!(result.amount_out, 500_000);
    assert!(result.amount_in + result.fee_amount <= 10_000_000);
}

#[test]
fn a_to_b_step_lowers_the_price() {
    // A in, price falls from 1.0 toward 0.5 with L = 1_000_000, which would take 1_000_000 of A
    let result = compute_swap_step(ONE_Q64, ONE_Q64 / 2, 1_000_000, 100_000, 3000, true, true).unwrap();
    assert!(result.sqrt_price_next < ONE_Q64 && result.sqrt_price_next > ONE_Q64 / 2);
    assert_eq!(result.amount_in + result.fee_amount, 100_000);
    assert!(result.amount_out > 0 && result.amount_out < 100_000);
    // all the way to the target
    let full = compute_swap_step(ONE_Q64, ONE_Q64 / 2, 1_000_000, 2_000_000, 3000, true, true).unwrap();
    assert_eq!(full.sqrt_price_next, ONE_Q64 / 2);
    assert_eq!(full.amount_in, 1_000_000);
    assert_eq!(full.amount_out, 500_000);
}

#[test]
fn exact_output_step_gives_what_is_wanted() {
    // b -> a, price 1.0 toward 2.0 with L = 1_000_000: the way holds 500_000 of A
    let wanted = 100_000;
    let r = compute_swap_step(ONE_Q64, ONE_Q64 * 2, 1_000_000, wanted, 3000, false, false).unwrap();
    assert_eq!(r.amount_out, wanted);
    // L * P / (L - out * P), rounded up: 10/9 of the price
    let next = (ONE_Q64 * 10 + 8) / 9;
    assert_eq!(r.sqrt_price_next, next);
    // B in: L * (next - 1), rounded up
    let cost = (1_000_000 * (next - ONE_Q64) + ONE_Q64 - 1) / ONE_Q64;
    assert_eq!(r.amount_in as u128, cost);
    assert_eq!(r.fee_amount as u128, cost * 3000 / 1_000_000);
    assert!(r.sqrt_price_next < ONE_Q64 * 2);
}

#[test]
fn exact_output_step_that_reaches_the_target() {
    let r = compute_swap_step(ONE_Q64, ONE_Q64 * 2, 1_000_000, 600_000, 3000, false, false).unwrap();
    assert_eq!(r.sqrt_price_next, ONE_Q64 * 2);
    assert_eq!(r.amount_out, 500_000);
    assert_eq!(r.amount_in, 1_000_000);
    assert_eq!(r.fee_amount, 3_000);
    // a -> b: B out, price falls from 1.0 toward 0.5; the way holds 500_000 of B
    let r = compute_swap_step(ONE_Q64, ONE_Q64 / 2, 1_000_000, 100_000, 3000, false, true).unwrap();
    assert_eq!(r.amount_out, 100_000);
    assert_eq!(r.sqrt_price_next, ONE_Q64 - (100_000u128 << 64) / 1_000_000);
    assert!(r.amount_in > 100_000);
}
