use tidepool::clmm::errors::TidePoolError;
use tidepool::clmm::math::tick_math::{sqrt_price_to_tick, tick_to_sqrt_price, MAX_SQRT_PRICE, MIN_SQRT_PRICE};
use tidepool::clmm::math::u256::U256;
use tidepool::clmm::state::tick::{MAX_TICK, MIN_TICK};

#[test]
fn test_tick_zero_is_one() {
    let price = tick_to_sqrt_price(0).unwrap();
    let one_q64 = 1u128 << 64;
    // At tick 0, sqrt_price should be 1.0 (Q64.64)
    assert_eq!(price, one_q64);
}

#[test]
fn test_positive_tick_greater() {
    let price_0 = tick_to_sqrt_price(0).unwrap();
    let price_100 = tick_to_sqrt_price(100).unwrap();
    assert!(price_100 > price_0);
}

#[test]
fn test_negative_tick_smaller() {
    let price_0 = tick_to_sqrt_price(0).unwrap();
    let price_neg100 = tick_to_sqrt_price(-100).unwrap();
    assert!(price_neg100 < price_0);
}

#[test]
fn test_roundtrip_tick_0() {
    let price = tick_to_sqrt_price(0).unwrap();
    let tick = sqrt_price_to_tick(price).unwrap();
    assert_eq!(tick, 0);
}

#[test]
fn test_min_max_bounds() {
    let min_price = tick_to_sqrt_price(MIN_TICK).unwrap();
    let max_price = tick_to_sqrt_price(MAX_TICK).unwrap();
    assert!(min_price > 0);
    assert!(max_price > min_price);
}

#[test]
fn test_tick_1_matches_sqrt_1_0001() {
    let price = tick_to_sqrt_price(1).unwrap();
    let one = 1u128 << 64;
    // sqrt(1.0001) ≈ 1.0000499987500624
    // At tick 1, price should be ~0.005% above 1.0
    let diff_pct = ((price as f64 - one as f64) / one as f64) * 100.0;
    assert!(diff_pct > 0.004, "tick 1 price should be ~0.005% above 1.0");
    assert!(diff_pct < 0.006, "tick 1 price should be ~0.005% above 1.0");
}

#[test]
fn test_tick_symmetry() {
    // tick_to_sqrt_price(n) * tick_to_sqrt_price(-n) ≈ 1.0^2 = 2^128
    let pos = tick_to_sqrt_price(1000).unwrap();
    let neg = tick_to_sqrt_price(-1000).unwrap();
    let product = U256::mul_u128(pos, neg);
    let one_squared = 1u128 << 64; // 1.0 in Q64.64
    let result = product.shr_64();
    // Should be close to 1.0 in Q64.64
    let error_pct = ((result as f64 - one_squared as f64) / one_squared as f64).abs() * 100.0;
    assert!(error_pct < 0.01, "pos*neg product should be ~1.0, got {}% error", error_pct);
}

#[test]
fn test_roundtrip_tick_100() {
    let price = tick_to_sqrt_price(100).unwrap();
    let tick = sqrt_price_to_tick(price).unwrap();
    assert_eq!(tick, 100);
}

#[test]
fn test_roundtrip_tick_negative() {
    let price = tick_to_sqrt_price(-500).unwrap();
    let tick = sqrt_price_to_tick(price).unwrap();
    assert_eq!(tick, -500);
}

#[test]
fn extreme_ticks_give_the_bounds() {
    assert_eq!(tick_to_sqrt_price(MIN_TICK), Ok(MIN_SQRT_PRICE));
    assert_eq!(tick_to_sqrt_price(MAX_TICK), Ok(79_226_673_515_401_279_963_822_778_343));
    assert!(tick_to_sqrt_price(MAX_TICK).unwrap() < MAX_SQRT_PRICE);
}

#[test]
fn ticks_out_of_range_are_refused() {
    assert_eq!(tick_to_sqrt_price(MAX_TICK + 1), Err(TidePoolError::TickOutOfRange));
    assert_eq!(tick_to_sqrt_price(MIN_TICK - 1), Err(TidePoolError::TickOutOfRange));
    assert_eq!(sqrt_price_to_tick(MIN_SQRT_PRICE - 1), Err(TidePoolError::SqrtPriceOutOfBounds));
    assert_eq!(sqrt_price_to_tick(MAX_SQRT_PRICE + 1), Err(TidePoolError::SqrtPriceOutOfBounds));
}

#[test]
fn price_between_ticks_maps_to_the_lower_tick() {
    let p = tick_to_sqrt_price(7).unwrap();
    let q = tick_to_sqrt_price(8).unwrap();
    assert_eq!(sqrt_price_to_tick(p + 1), Ok(7));
    assert_eq!(sqrt_price_to_tick(q - 1), Ok(7));
    assert_eq!(sqrt_price_to_tick(MAX_SQRT_PRICE), Ok(MAX_TICK));
    assert_eq!(sqrt_price_to_tick(MIN_SQRT_PRICE), Ok(MIN_TICK));
}

#[test]
fn roundtrip_at_the_extremes() {
    for t in [MIN_TICK, MIN_TICK + 1, -1, 1, MAX_TICK - 1, MAX_TICK] {
        let p = tick_to_sqrt_price(t).unwrap();
        assert_eq!(sqrt_price_to_tick(p), Ok(t));
    }
}

#[test]
fn symmetric_ticks_multiply_to_about_one() {
    for t in [1, 1000, 100_000, MAX_TICK] {
        let pos = tick_to_sqrt_price(t).unwrap();
        let neg = tick_to_sqrt_price(-t).unwrap();
        let product = U256::mul_u128(pos, neg);
        // pos * neg <= 2^128 and > u128::MAX - pos
        assert!(product.0[1] <= 1);
        assert!(product.0[1] == 1 || product.0[0] > u128::MAX - pos);
        if product.0[1] == 1 {
            assert_eq!(product.0[0], 0);
        }
    }
}

#[test]
fn tick_one_is_the_floor_of_sqrt_1_0001() {
    // floor(sqrt(1.0001) * 2^64)
    assert_eq!(tick_to_sqrt_price(1), Ok(18_447_666_387_855_959_850));
    assert_eq!(tick_to_sqrt_price(2), Ok(18_448_588_748_116_922_571));
    assert_eq!(tick_to_sqrt_price(MAX_TICK), Ok(79_226_673_515_401_279_963_822_778_343));
    assert_eq!(tick_to_sqrt_price(MIN_TICK), Ok(MIN_SQRT_PRICE));
}
