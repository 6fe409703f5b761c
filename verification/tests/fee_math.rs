use tidepool::clmm::math::fee_math::{
    calculate_amount_after_fees, calculate_fee_amount, calculate_fee_growth_delta, calculate_protocol_fee,
};

#[test]
fn test_zero_fee_rate() {
    let fee = calculate_fee_amount(1000, 0).unwrap();
    assert_eq!(fee, 0);
}

#[test]
fn test_fee_calculation() {
    // 3000 hundredths of bip = 30 bps = 0.3%
    let fee = calculate_fee_amount(1_000_000, 3000).unwrap();
    assert_eq!(fee, 3000); // 0.3% of 1M
}

#[test]
fn test_amount_after_fees() {
    let (after, fee) = calculate_amount_after_fees(1_000_000, 3000).unwrap();
    assert_eq!(fee, 3000);
    assert_eq!(after, 997_000);
}

#[test]
fn test_protocol_fee() {
    // 10% of 3000 fee = 300
    let proto_fee = calculate_protocol_fee(3000, 1000);
    assert_eq!(proto_fee, 300);
}

#[test]
fn test_fee_growth_delta() {
    let delta = calculate_fee_growth_delta(1000, 1u128 << 64);
    assert_eq!(delta, 1000); // 1000 << 64 / (1 << 64) = 1000
}

#[test]
fn fee_amount_rounds_down() {
    // 333 * 3000 / 1_000_000 = 0.999
    assert_eq!(calculate_fee_amount(333, 3000).unwrap(), 0);
    assert_eq!(calculate_fee_amount(334, 3000).unwrap(), 1);
}

#[test]
fn full_fee_rate_takes_the_whole_amount_at_most() {
    // the largest rate a u16 can hold is 6.5535% of the amount
    assert_eq!(calculate_fee_amount(1_000_000, u16::MAX).unwrap(), 65_535);
    let (after, fee) = calculate_amount_after_fees(u64::MAX, u16::MAX).unwrap();
    assert_eq!(after + fee, u64::MAX);
}

#[test]
fn fee_growth_delta_is_zero_without_liquidity_or_fee() {
    assert_eq!(calculate_fee_growth_delta(1000, 0), 0);
    assert_eq!(calculate_fee_growth_delta(0, 1000), 0);
    // 1 unit of fee over 2 units of liquidity is half a unit per unit: 2^63 in Q64.64
    assert_eq!(calculate_fee_growth_delta(1, 2), 1u128 << 63);
}

#[test]
fn protocol_fee_is_cut_to_64_bits() {
    assert_eq!(calculate_protocol_fee(3000, 0), 0);
    assert_eq!(calculate_protocol_fee(10_000, 10_000), 10_000);
    // u64::MAX * 65535 / 10000 exceeds u64, and the result keeps its low 64 bits
    let full = (u64::MAX as u128) * 65_535 / 10_000;
    assert_eq!(calculate_protocol_fee(u64::MAX, u16::MAX), full as u64);
}
