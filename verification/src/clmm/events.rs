use vstd::prelude::*;

verus! {

/// Emitted when a pool is created.
#[derive(Debug, Clone, Copy, PartialEq, Eq)]
pub struct PoolInitialized {
    pub pool: [u8; 32],
    pub token_mint_a: [u8; 32],
    pub token_mint_b: [u8; 32],
    pub tick_spacing: u16,
    pub initial_sqrt_price: u128,
    pub fee_rate: u16,
}

/// Emitted when liquidity is added to a position.
#[derive(Debug, Clone, Copy, PartialEq, Eq)]
pub struct LiquidityAdded {
    pub pool: [u8; 32],
    pub position: [u8; 32],
    pub owner: [u8; 32],
    pub tick_lower: i32,
    pub tick_upper: i32,
    pub liquidity_delta: u128,
    pub amount_a: u64,
    pub amount_b: u64,
}

/// Emitted when liquidity is removed from a position.
#[derive(Debug, Clone, Copy, PartialEq, Eq)]
pub struct LiquidityRemoved {
    pub pool: [u8; 32],
    pub position: [u8; 32],
    pub owner: [u8; 32],
    pub tick_lower: i32,
    pub tick_upper: i32,
    pub liquidity_delta: u128,
    pub amount_a: u64,
    pub amount_b: u64,
}

/// Emitted on each swap.
#[derive(Debug, Clone, Copy, PartialEq, Eq)]
pub struct SwapExecuted {
    pub pool: [u8; 32],
    pub trader: [u8; 32],
    pub a_to_b: bool,
    pub amount_in: u64,
    pub amount_out: u64,
    pub fee_amount: u64,
    pub sqrt_price_after: u128,
    pub tick_after: i32,
}

/// Emitted when a position's fees are collected.
#[derive(Debug, Clone, Copy, PartialEq, Eq)]
pub struct FeesCollected {
    pub pool: [u8; 32],
    pub position: [u8; 32],
    pub owner: [u8; 32],
    pub amount_a: u64,
    pub amount_b: u64,
}

/// Emitted when the protocol's fees are collected.
#[derive(Debug, Clone, Copy, PartialEq, Eq)]
pub struct ProtocolFeesCollected {
    pub pool: [u8; 32],
    pub amount_a: u64,
    pub amount_b: u64,
}

} // verus!
