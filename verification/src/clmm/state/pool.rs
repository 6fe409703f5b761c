use vstd::prelude::*;

verus! {

/// A concentrated-liquidity pool. Account addresses are held as their 32 raw bytes.
#[derive(Debug, Clone, Copy, PartialEq, Eq)]
pub struct Pool {
    pub authority: [u8; 32],
    pub token_mint_a: [u8; 32],
    pub token_mint_b: [u8; 32],
    pub token_vault_a: [u8; 32],
    pub token_vault_b: [u8; 32],
    /// Current sqrt(price) in Q64.64 format
    pub sqrt_price: u128,
    /// Current tick index derived from sqrt_price
    pub tick_current_index: i32,
    /// Minimum tick spacing for positions
    pub tick_spacing: u16,
    /// Currently in-range liquidity
    pub liquidity: u128,
    /// Fee rate in hundredths of a basis point (e.g., 3000 = 30bps = 0.3%)
    pub fee_rate: u16,
    /// Protocol's share of fees in basis points (e.g., 1000 = 10%)
    pub protocol_fee_rate: u16,
    /// Global cumulative fee growth per unit of liquidity (token A), Q64.64
    pub fee_growth_global_a: u128,
    /// Global cumulative fee growth per unit of liquidity (token B), Q64.64
    pub fee_growth_global_b: u128,
    /// Accumulated protocol fees available for collection
    pub protocol_fees_owed_a: u64,
    pub protocol_fees_owed_b: u64,
    pub total_liquidity_provided: u128,
    pub num_positions: u32,
    pub paused: bool,
    pub bump: u8,
}

/// The current tick lies in `[tick_lower, tick_upper)`.
pub open spec fn spec_in_range(tick_current: i32, tick_lower: i32, tick_upper: i32) -> bool {
    tick_current >= tick_lower && tick_current < tick_upper
}

impl Pool {
    /// What every pool holds from its creation on: a tick spacing in `1..=200`.
    pub open spec fn inv(&self) -> bool {
        0 < self.tick_spacing <= 200
    }

    /// Whether the current tick lies in `[tick_lower, tick_upper)`.
    pub fn is_price_in_range(&self, tick_lower: i32, tick_upper: i32) -> (r: bool)
        ensures
            r == spec_in_range(self.tick_current_index, tick_lower, tick_upper),
    {
        self.tick_current_index >= tick_lower && self.tick_current_index < tick_upper
    }
}

} // verus!
