use tidepool::vault::state::vault::integer_sqrt;
use tidepool::vault::state::Vault;

fn make_vault(total_shares: u64, total_a: u64, total_b: u64) -> Vault {
    Vault {
        authority: [0u8; 32],
        keeper: [0u8; 32],
        pool: [0u8; 32],
        share_mint: [0u8; 32],
        token_vault_a: [0u8; 32],
        token_vault_b: [0u8; 32],
        active_position: [0u8; 32],
        active_tick_lower: 0,
        active_tick_upper: 0,
        has_active_position: false,
        rebalance_threshold_bps: 1000,
        tick_range_multiplier: 10,
        max_slippage_bps: 100,
        total_shares,
        total_value_a: total_a,
        total_value_b: total_b,
        total_fees_earned_a: 0,
        total_fees_earned_b: 0,
        last_rebalance_slot: 0,
        last_compound_slot: 0,
        rebalance_count: 0,
        performance_fee_bps: 1000,
        management_fee_bps: 200,
        paused: false,
        bump: 0,
    }
}

#[test]
fn test_integer_sqrt() {
    assert_eq!(integer_sqrt(0), 0);
    assert_eq!(integer_sqrt(1), 1);
    assert_eq!(integer_sqrt(4), 2);
    assert_eq!(integer_sqrt(9), 3);
    assert_eq!(integer_sqrt(100), 10);
    assert_eq!(integer_sqrt(2), 1); // floor
}

#[test]
fn test_first_deposit_uses_sqrt() {
    let vault = make_vault(0, 0, 0);
    // sqrt(1000 * 4000) = sqrt(4_000_000) = 2000
    let shares = vault.calculate_shares_to_mint(1000, 4000);
    assert_eq!(shares, 2000);
}

#[test]
fn test_first_deposit_single_token() {
    let vault = make_vault(0, 0, 0);
    // only token A deposited, product is 0 -> fallback to max
    let shares = vault.calculate_shares_to_mint(500, 0);
    assert_eq!(shares, 500);
}

#[test]
fn test_subsequent_deposit_proportional() {
    let vault = make_vault(1000, 500, 500);
    // deposit 100 of each: share_a = 100*1000/500 = 200, share_b = 200
    // min(200, 200) = 200
    let shares = vault.calculate_shares_to_mint(100, 100);
    assert_eq!(shares, 200);
}

#[test]
fn test_subsequent_deposit_imbalanced() {
    let vault = make_vault(1000, 500, 500);
    // deposit 200 A and 50 B -> share_a=400, share_b=100 -> min=100
    let shares = vault.calculate_shares_to_mint(200, 50);
    assert_eq!(shares, 100);
}

#[test]
fn test_withdrawal_proportional() {
    let vault = make_vault(1000, 500, 800);
    let (a, b) = vault.calculate_withdrawal_amounts(100);
    // 100/1000 * 500 = 50, 100/1000 * 800 = 80
    assert_eq!(a, 50);
    assert_eq!(b, 80);
}

#[test]
fn test_withdrawal_all_shares() {
    let vault = make_vault(1000, 500, 800);
    let (a, b) = vault.calculate_withdrawal_amounts(1000);
    assert_eq!(a, 500);
    assert_eq!(b, 800);
}

#[test]
fn test_withdrawal_zero_shares() {
    let vault = make_vault(0, 0, 0);
    let (a, b) = vault.calculate_withdrawal_amounts(100);
    assert_eq!(a, 0);
    assert_eq!(b, 0);
}

#[test]
fn integer_sqrt_of_large_values() {
    assert_eq!(integer_sqrt(u128::MAX - 1), u64::MAX as u128);
    let m = u64::MAX as u128;
    assert_eq!(integer_sqrt(m * m), m);
    assert_eq!(integer_sqrt(m * m - 1), m - 1);
    assert_eq!(integer_sqrt(99), 9);
    assert_eq!(integer_sqrt(3), 1);
}

#[test]
fn first_deposit_of_the_largest_amounts() {
    let vault = make_vault(0, 0, 0);
    assert_eq!(vault.calculate_shares_to_mint(u64::MAX, u64::MAX), u64::MAX);
    assert_eq!(vault.calculate_shares_to_mint(0, 0), 0);
    assert_eq!(vault.calculate_shares_to_mint(0, 7), 7);
}

#[test]
fn deposit_into_an_empty_side_mints_nothing() {
    // the vault holds shares but no token B: the B side contributes zero shares
    let vault = make_vault(1000, 500, 0);
    assert_eq!(vault.calculate_shares_to_mint(100, 100), 0);
}

#[test]
fn pro_rata_shares_are_cut_to_64_bits() {
    // 2^40 * 2^40 / 1 = 2^80 does not fit: the low 64 bits are kept
    let vault = make_vault(1 << 40, 1, 1);
    assert_eq!(vault.calculate_shares_to_mint(1 << 40, 1 << 40), 0);
    let vault = make_vault(1 << 40, 1, 1);
    assert_eq!(vault.calculate_shares_to_mint(3, 3), 3 << 40);
}

#[test]
fn withdrawal_rounds_down() {
    let vault = make_vault(3, 10, 20);
    assert_eq!(vault.calculate_withdrawal_amounts(1), (3, 6));
    assert_eq!(vault.calculate_withdrawal_amounts(3), (10, 20));
}

#[test]
fn deposit_then_withdraw_never_returns_more() {
    let vault = make_vault(1000, 777, 333);
    let shares = vault.calculate_shares_to_mint(100, 100);
    let mut after = vault;
    after.total_shares += shares;
    after.total_value_a += 100;
    after.total_value_b += 100;
    let (a, b) = after.calculate_withdrawal_amounts(shares);
    assert!(a <= 100);
    assert!(b <= 100);
}
