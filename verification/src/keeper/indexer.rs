use vstd::prelude::*;

use crate::keeper::decode::{le_u64, read_u64_le};
use crate::keeper::errors::KeeperError;

verus! {

/// Pool metrics collected by the indexer.
#[derive(Debug, Clone, PartialEq, Eq)]
pub struct PoolMetrics {
    pub pool_address: String,
    pub sqrt_price: u128,
    pub tick_current: i32,
    pub liquidity: u128,
    pub fee_growth_global_a: u128,
    pub fee_growth_global_b: u128,
    pub num_positions: u32,
    pub timestamp: i64,
}

/// The accounting totals the indexer reads from a vault account.
#[derive(Debug, Clone, Copy, PartialEq, Eq, Structural)]
pub struct VaultTotals {
    pub total_shares: u64,
    pub total_value_a: u64,
    pub total_value_b: u64,
}

/// Shortest vault account (discriminator included) the indexer reads.
pub const VAULT_ACCOUNT_MIN_LEN: usize = 264;

/// Where the indexer takes the accounting section to start in a vault account: after
/// the discriminator, six addresses, the active position and the range and strategy
/// fields.
pub const ACCOUNTING_OFFSET: usize = 8 + 32 * 6 + 32 + 4 + 4 + 1 + 2 + 1 + 2;

/// The totals stored little-endian from `ACCOUNTING_OFFSET` on.
pub open spec fn spec_vault_totals(d: Seq<u8>) -> VaultTotals {
    VaultTotals {
        total_shares: le_u64(d, ACCOUNTING_OFFSET as int) as u64,
        total_value_a: le_u64(d, ACCOUNTING_OFFSET + 8) as u64,
        total_value_b: le_u64(d, ACCOUNTING_OFFSET + 16) as u64,
    }
}

/// Reads the accounting totals from a whole vault account. An account of fewer than
/// `VAULT_ACCOUNT_MIN_LEN` bytes is refused; the last total ends 6 bytes past that
/// length, so an account must be refused or hold all three totals.
pub fn read_vault_totals(data: &[u8]) -> (r: Result<VaultTotals, KeeperError>)
    requires
        data@.len() < VAULT_ACCOUNT_MIN_LEN || data@.len() >= ACCOUNTING_OFFSET + 24,
    ensures
        data@.len() < VAULT_ACCOUNT_MIN_LEN ==> r == Err::<VaultTotals, KeeperError>(
            KeeperError::InvalidVaultAccountData,
        ),
        data@.len() >= VAULT_ACCOUNT_MIN_LEN ==> r == Ok::<VaultTotals, KeeperError>(
            spec_vault_totals(data@),
        ),
{
    if data.len() < VAULT_ACCOUNT_MIN_LEN {
        return Err(KeeperError::InvalidVaultAccountData);
    }

    // Skip 8-byte discriminator + fixed fields to reach accounting section
    let offset = ACCOUNTING_OFFSET;
    let total_shares = read_u64_le(data, offset);
    let total_value_a = read_u64_le(data, offset + 8);
    let total_value_b = read_u64_le(data, offset + 16);

    Ok(VaultTotals { total_shares, total_value_a, total_value_b })
}

} // verus!
