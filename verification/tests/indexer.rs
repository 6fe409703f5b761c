use tidepool::keeper::errors::KeeperError;
use tidepool::keeper::indexer::{read_vault_totals, PoolMetrics, VaultTotals, ACCOUNTING_OFFSET};

#[test]
fn vault_totals_are_read_from_the_accounting_section() {
    let mut data = vec![0u8; 270];
    data[ACCOUNTING_OFFSET..ACCOUNTING_OFFSET + 8].copy_from_slice(&1_000u64.to_le_bytes());
    data[ACCOUNTING_OFFSET + 8..ACCOUNTING_OFFSET + 16].copy_from_slice(&u64::MAX.to_le_bytes());
    data[ACCOUNTING_OFFSET + 16..ACCOUNTING_OFFSET + 24].copy_from_slice(&0x0102_0304_0506_0708u64.to_le_bytes());
    assert_eq!(ACCOUNTING_OFFSET, 246);
    assert_eq!(
        read_vault_totals(&data),
        Ok(VaultTotals { total_shares: 1_000, total_value_a: u64::MAX, total_value_b: 0x0102_0304_0506_0708 })
    );
}

#[test]
fn short_vault_accounts_are_refused() {
    let data = vec![0u8; 263];
    assert_eq!(read_vault_totals(&data), Err(KeeperError::InvalidVaultAccountData));
    assert_eq!(read_vault_totals(&[]), Err(KeeperError::InvalidVaultAccountData));
}

#[test]
fn pool_metrics_hold_plain_values() {
    let m = PoolMetrics {
        pool_address: String::from("pool"),
        sqrt_price: 1u128 << 64,
        tick_current: -3,
        liquidity: 5,
        fee_growth_global_a: 6,
        fee_growth_global_b: 7,
        num_positions: 2,
        timestamp: 1_700_000_000,
    };
    let copy = m.clone();
    assert_eq!(copy, m);
    assert_eq!(copy.pool_address, "pool");
}
