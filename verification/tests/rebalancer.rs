use tidepool::keeper::errors::KeeperError;
use tidepool::keeper::rebalancer::{
    calculate_optimal_range, can_decide_rebalance, decide_rebalance, deserialize_pool_state,
    deserialize_vault_state, read_pool_account, read_vault_account, should_rebalance, PoolState,
    RebalanceDecision, VaultState,
};

fn pool_at(tick_current_index: i32) -> PoolState {
    PoolState { sqrt_price: 0, tick_current_index, tick_spacing: 10, liquidity: 1000 }
}

fn vault_over(active_tick_lower: i32, active_tick_upper: i32, tick_range_multiplier: u8, paused: bool) -> VaultState {
    VaultState {
        authority: [0u8; 32],
        keeper: [0u8; 32],
        pool: [0u8; 32],
        active_tick_lower,
        active_tick_upper,
        has_active_position: true,
        rebalance_threshold_bps: 1000,
        tick_range_multiplier,
        rebalance_count: 0,
        paused,
    }
}

#[test]
fn test_should_rebalance_in_range() {
    let pool = PoolState { sqrt_price: 0, tick_current_index: 500, tick_spacing: 10, liquidity: 1000 };
    let vault = VaultState {
        authority: [0u8; 32],
        keeper: [0u8; 32],
        pool: [0u8; 32],
        active_tick_lower: 0,
        active_tick_upper: 1000,
        has_active_position: true,
        rebalance_threshold_bps: 1000, // 10%
        tick_range_multiplier: 10,
        rebalance_count: 0,
        paused: false,
    };

    // tick 500 is in the middle of [0, 1000] — no rebalance needed
    assert!(!should_rebalance(&pool, &vault));
}

#[test]
fn test_should_rebalance_out_of_range() {
    let pool = PoolState { sqrt_price: 0, tick_current_index: 1500, tick_spacing: 10, liquidity: 1000 };
    let vault = VaultState {
        authority: [0u8; 32],
        keeper: [0u8; 32],
        pool: [0u8; 32],
        active_tick_lower: 0,
        active_tick_upper: 1000,
        has_active_position: true,
        rebalance_threshold_bps: 1000,
        tick_range_multiplier: 10,
        rebalance_count: 0,
        paused: false,
    };

    assert!(should_rebalance(&pool, &vault));
}

#[test]
fn test_should_rebalance_near_edge() {
    let pool = PoolState {
        sqrt_price: 0,
        tick_current_index: 950, // near upper edge of [0, 1000]
        tick_spacing: 10,
        liquidity: 1000,
    };
    let vault = VaultState {
        authority: [0u8; 32],
        keeper: [0u8; 32],
        pool: [0u8; 32],
        active_tick_lower: 0,
        active_tick_upper: 1000,
        has_active_position: true,
        rebalance_threshold_bps: 1000, // 10% threshold = 100 ticks
        tick_range_multiplier: 10,
        rebalance_count: 0,
        paused: false,
    };

    // 950 > 1000 - 100 = 900 → should rebalance
    assert!(should_rebalance(&pool, &vault));
}

#[test]
fn test_calculate_optimal_range() {
    let pool = PoolState { sqrt_price: 0, tick_current_index: 500, tick_spacing: 10, liquidity: 1000 };
    let vault = VaultState {
        authority: [0u8; 32],
        keeper: [0u8; 32],
        pool: [0u8; 32],
        active_tick_lower: 0,
        active_tick_upper: 1000,
        has_active_position: true,
        rebalance_threshold_bps: 1000,
        tick_range_multiplier: 5, // 5 * 10 = 50 ticks each side
        rebalance_count: 0,
        paused: false,
    };

    let (lower, upper) = calculate_optimal_range(&pool, &vault);
    assert_eq!(lower, 450); // (500 - 50) / 10 * 10
    assert_eq!(upper, 550); // (500 + 50) / 10 * 10
}

#[test]
fn test_no_rebalance_when_paused() {
    let pool = PoolState { sqrt_price: 0, tick_current_index: 2000, tick_spacing: 10, liquidity: 1000 };
    let vault = VaultState {
        authority: [0u8; 32],
        keeper: [0u8; 32],
        pool: [0u8; 32],
        active_tick_lower: 0,
        active_tick_upper: 1000,
        has_active_position: true,
        rebalance_threshold_bps: 1000,
        tick_range_multiplier: 10,
        rebalance_count: 0,
        paused: true,
    };

    assert!(!should_rebalance(&pool, &vault));
}

#[test]
fn no_rebalance_without_an_active_position() {
    let mut vault = vault_over(0, 1000, 10, false);
    vault.has_active_position = false;
    assert!(!should_rebalance(&pool_at(5000), &vault));
}

#[test]
fn edge_thresholds_are_exclusive() {
    let vault = vault_over(0, 1000, 10, false);
    // threshold = 100: ticks 100..=900 hold
    assert!(!should_rebalance(&pool_at(100), &vault));
    assert!(!should_rebalance(&pool_at(900), &vault));
    assert!(should_rebalance(&pool_at(99), &vault));
    assert!(should_rebalance(&pool_at(901), &vault));
    // the upper tick itself is outside the range
    assert!(should_rebalance(&pool_at(1000), &vault));
    assert!(should_rebalance(&pool_at(-1), &vault));
}

#[test]
fn optimal_range_rounds_toward_zero_below_zero() {
    let vault = vault_over(0, 1000, 5, false);
    // -505 - 50 = -555 -> -550; -505 + 50 = -455 -> -450
    assert_eq!(calculate_optimal_range(&pool_at(-505), &vault), (-550, -450));
    // -20 - 50 = -70 -> -70; -20 + 50 = 30 -> 30
    assert_eq!(calculate_optimal_range(&pool_at(-20), &vault), (-70, 30));
    // 503 - 50 = 453 -> 450; 503 + 50 = 553 -> 550
    assert_eq!(calculate_optimal_range(&pool_at(503), &vault), (450, 550));
}

#[test]
fn optimal_range_contains_the_current_tick() {
    let vault = vault_over(0, 1000, 1, false);
    for t in [-1001, -999, -10, -1, 0, 1, 9, 10, 11, 12345] {
        let (lower, upper) = calculate_optimal_range(&pool_at(t), &vault);
        assert!(lower < t && t < upper);
        assert_eq!(lower % 10, 0);
        assert_eq!(upper % 10, 0);
    }
}

#[test]
fn decide_rebalance_holds_reports_or_submits() {
    let vault = vault_over(0, 1000, 5, false);
    assert_eq!(decide_rebalance(&pool_at(500), &vault, false), RebalanceDecision::Hold);
    assert_eq!(
        decide_rebalance(&pool_at(950), &vault, true),
        RebalanceDecision::DryRun { new_tick_lower: 900, new_tick_upper: 1000 }
    );
    assert_eq!(
        decide_rebalance(&pool_at(950), &vault, false),
        RebalanceDecision::Submit { new_tick_lower: 900, new_tick_upper: 1000 }
    );
}

#[test]
fn can_decide_rebalance_rejects_only_unusable_ranges() {
    let vault = vault_over(0, 1000, 5, false);
    assert!(can_decide_rebalance(&pool_at(500), &vault));
    // a range as wide as i32 allows: its threshold is computed in 64 bits
    let wide = vault_over(i32::MIN, i32::MAX, 5, false);
    assert!(can_decide_rebalance(&pool_at(0), &wide));
    assert!(!should_rebalance(&pool_at(0), &wide));
    assert!(should_rebalance(&pool_at(i32::MIN + 1), &wide));
    // width * threshold beyond i32
    let mut big = vault_over(0, 1_000_000, 5, false);
    big.rebalance_threshold_bps = 10_000;
    assert!(can_decide_rebalance(&pool_at(500_000), &big));
    assert!(should_rebalance(&pool_at(500_000), &big));
    // zero tick spacing with a move needed
    let mut pool = pool_at(2000);
    pool.tick_spacing = 0;
    assert!(!can_decide_rebalance(&pool, &vault));
    // no move needed: spacing does not matter
    let mut pool = pool_at(500);
    pool.tick_spacing = 0;
    assert!(can_decide_rebalance(&pool, &vault));
}

fn vault_bytes() -> Vec<u8> {
    let mut data = vec![0u8; 304];
    for i in 0..32 {
        data[i] = 1;
        data[32 + i] = 2;
        data[64 + i] = 3;
    }
    data[224..228].copy_from_slice(&(-640i32).to_le_bytes());
    data[228..232].copy_from_slice(&1280i32.to_le_bytes());
    data[232] = 1;
    data[233..235].copy_from_slice(&750u16.to_le_bytes());
    data[235] = 12;
    data[294..298].copy_from_slice(&7u32.to_le_bytes());
    data[302] = 1;
    data
}

#[test]
fn deserialize_vault_state_reads_the_layout() {
    let v = deserialize_vault_state(&vault_bytes()).unwrap();
    assert_eq!(v.authority, [1u8; 32]);
    assert_eq!(v.keeper, [2u8; 32]);
    assert_eq!(v.pool, [3u8; 32]);
    assert_eq!(v.active_tick_lower, -640);
    assert_eq!(v.active_tick_upper, 1280);
    assert!(v.has_active_position);
    assert_eq!(v.rebalance_threshold_bps, 750);
    assert_eq!(v.tick_range_multiplier, 12);
    assert_eq!(v.rebalance_count, 7);
    assert!(v.paused);
    assert_eq!(deserialize_vault_state(&vault_bytes()[..302]), Err(KeeperError::VaultDataTooShort));
    assert!(deserialize_vault_state(&vault_bytes()[..303]).unwrap().paused);
    // a paused vault is never moved
    assert!(!should_rebalance(&pool_at(2000), &v));
    let mut active = vault_bytes();
    active[302] = 0;
    assert!(!deserialize_vault_state(&active).unwrap().paused);
}

#[test]
fn deserialize_pool_state_reads_the_layout() {
    let mut data = vec![0u8; 200];
    data[160..176].copy_from_slice(&((1u128 << 64) + 12345).to_le_bytes());
    data[176..180].copy_from_slice(&(-443636i32).to_le_bytes());
    data[180..182].copy_from_slice(&64u16.to_le_bytes());
    data[182..198].copy_from_slice(&u128::MAX.to_le_bytes());
    let p = deserialize_pool_state(&data).unwrap();
    assert_eq!(p.sqrt_price, (1u128 << 64) + 12345);
    assert_eq!(p.tick_current_index, -443636);
    assert_eq!(p.tick_spacing, 64);
    assert_eq!(p.liquidity, u128::MAX);
    assert_eq!(deserialize_pool_state(&data[..199]), Err(KeeperError::PoolDataTooShort));
}

#[test]
fn whole_accounts_skip_the_discriminator() {
    let mut account = vec![9u8; 8];
    account.extend_from_slice(&vault_bytes());
    let v = read_vault_account(&account).unwrap();
    assert_eq!(v.active_tick_upper, 1280);
    assert_eq!(read_vault_account(&account[..7]), Err(KeeperError::InvalidVaultAccountData));
    assert_eq!(read_vault_account(&account[..310]), Err(KeeperError::VaultDataTooShort));

    let mut pool = vec![0u8; 208];
    pool[8 + 176..8 + 180].copy_from_slice(&77i32.to_le_bytes());
    assert_eq!(read_pool_account(&pool).unwrap().tick_current_index, 77);
    assert_eq!(read_pool_account(&pool[..3]), Err(KeeperError::InvalidPoolAccountData));
    assert_eq!(read_pool_account(&pool[..207]), Err(KeeperError::PoolDataTooShort));
}
