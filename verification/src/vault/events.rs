use vstd::prelude::*;

verus! {

/// Emitted when a vault is created.
#[derive(Debug, Clone, Copy, PartialEq, Eq)]
pub struct VaultInitialized {
    pub vault: [u8; 32],
    pub pool: [u8; 32],
    pub authority: [u8; 32],
    pub keeper: [u8; 32],
    pub rebalance_threshold_bps: u16,
    pub tick_range_multiplier: u8,
}

/// Emitted on each deposit.
#[derive(Debug, Clone, Copy, PartialEq, Eq)]
pub struct VaultDeposited {
    pub vault: [u8; 32],
    pub user: [u8; 32],
    pub amount_a: u64,
    pub amount_b: u64,
    pub shares_minted: u64,
    pub share_price: u64,
}

/// Emitted on each withdrawal.
#[derive(Debug, Clone, Copy, PartialEq, Eq)]
pub struct VaultWithdrawn {
    pub vault: [u8; 32],
    pub user: [u8; 32],
    pub shares_burned: u64,
    pub amount_a: u64,
    pub amount_b: u64,
}

/// Emitted when the keeper moves the vault to a new tick range.
#[derive(Debug, Clone, Copy, PartialEq, Eq)]
pub struct VaultRebalanced {
    pub vault: [u8; 32],
    pub old_tick_lower: i32,
    pub old_tick_upper: i32,
    pub new_tick_lower: i32,
    pub new_tick_upper: i32,
    pub rebalance_count: u32,
}

/// Emitted when collected trading fees are folded back into the vault.
#[derive(Debug, Clone, Copy, PartialEq, Eq)]
pub struct VaultCompounded {
    pub vault: [u8; 32],
    pub fees_a: u64,
    pub fees_b: u64,
    pub performance_fee_a: u64,
    pub performance_fee_b: u64,
}

} // verus!
