use tidepool::clmm::math::u256::U256;

#[test]
fn test_mul_small() {
    let result = U256::mul_u128(100, 200);
    assert_eq!(result.0[0], 20_000);
    assert_eq!(result.0[1], 0);
}

#[test]
fn test_shr_64() {
    let result = U256::mul_u128(1u128 << 64, 1u128 << 64);
    assert_eq!(result.shr_64(), 1u128 << 64);
}

#[test]
fn test_from_u128() {
    let v = U256::from_u128(42);
    assert_eq!(v.0[0], 42);
    assert_eq!(v.0[1], 0);
}

#[test]
fn mul_u128_keeps_the_full_product() {
    let result = U256::mul_u128(u128::MAX, u128::MAX);
    // (2^128 - 1)^2 = 2^256 - 2^129 + 1
    assert_eq!(result.0[0], 1);
    assert_eq!(result.0[1], u128::MAX - 1);
}

#[test]
fn mul_u128_carries_between_halves() {
    let result = U256::mul_u128(1u128 << 100, 1u128 << 100);
    assert_eq!(result.0[0], 0);
    assert_eq!(result.0[1], 1u128 << 72);
}

#[test]
fn shr_128_gives_the_high_half() {
    let result = U256::mul_u128(1u128 << 100, 1u128 << 100);
    assert_eq!(result.shr_128(), 1u128 << 72);
}

#[test]
fn shr_64_takes_the_middle_bits() {
    let v = U256([0xAAAA_0000_0000_0000_0000_0000_0000_0000, 0x1234]);
    assert_eq!(v.shr_64(), (0x1234u128 << 64) | 0xAAAA_0000_0000_0000);
}

#[test]
fn fits_u128_after_shr64_checks_the_high_half() {
    assert!(U256::mul_u128(1u128 << 64, 1u128 << 64).fits_u128_after_shr64());
    assert!(U256([0, u64::MAX as u128]).fits_u128_after_shr64());
    assert!(!U256([0, 1u128 << 64]).fits_u128_after_shr64());
}
