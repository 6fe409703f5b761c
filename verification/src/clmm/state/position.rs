use vstd::prelude::*;

use crate::clmm::math::liquidity_math::{lemma_wrapping_sub, wrap128};
use crate::clmm::math::sqrt_price_math::{lemma_low_u64, low_u64};
use crate::clmm::math::u256::pow64;

verus! {

/// A liquidity position over `[tick_lower_index, tick_upper_index)`.
#[derive(Debug, Clone, Copy, PartialEq, Eq)]
pub struct Position {
    pub pool: [u8; 32],
    pub owner: [u8; 32],
    pub position_mint: [u8; 32],
    /// Lower tick boundary of the position
    pub tick_lower_index: i32,
    /// Upper tick boundary of the position
    pub tick_upper_index: i32,
    /// Amount of liquidity owned by this position
    pub liquidity: u128,
    /// Fee growth inside the position's range at last update (token A), Q64.64
    pub fee_growth_inside_last_a: u128,
    /// Fee growth inside the position's range at last update (token B), Q64.64
    pub fee_growth_inside_last_b: u128,
    /// Uncollected fees owed to this position (token A)
    pub fees_owed_a: u64,
    /// Uncollected fees owed to this position (token B)
    pub fees_owed_b: u64,
    pub bump: u8,
}

/// Fees earned by `liquidity` over a fee-growth increase of `delta`:
/// `liquidity * delta >> 64`, or nothing when the product overflows `u128` (the fees
/// would then not fit in 64 bits anyway).
pub open spec fn spec_fees_earned(delta: int, liquidity: u128) -> u64 {
    if delta * liquidity > u128::MAX {
        0
    } else {
        low_u64((delta * liquidity) / pow64())
    }
}

/// `a + b`, capped at `u64::MAX`.
pub open spec fn saturating_add_u64(a: u64, b: u64) -> u64 {
    if a + b > u64::MAX {
        u64::MAX
    } else {
        (a + b) as u64
    }
}

/// The position after `update_fees` with the given fee growth inside its range.
pub open spec fn spec_update_fees(p: Position, fee_growth_inside_a: u128, fee_growth_inside_b: u128) -> Position {
    let (owed_a, owed_b) = if p.liquidity > 0 {
        (
            saturating_add_u64(p.fees_owed_a, spec_fees_earned(wrap128(fee_growth_inside_a - p.fee_growth_inside_last_a), p.liquidity)),
            saturating_add_u64(p.fees_owed_b, spec_fees_earned(wrap128(fee_growth_inside_b - p.fee_growth_inside_last_b), p.liquidity)),
        )
    } else {
        (p.fees_owed_a, p.fees_owed_b)
    };
    Position {
        fees_owed_a: owed_a,
        fees_owed_b: owed_b,
        fee_growth_inside_last_a: fee_growth_inside_a,
        fee_growth_inside_last_b: fee_growth_inside_b,
        ..p
    }
}

/// Exec twin of `spec_fees_earned`.
fn fees_earned(delta: u128, liquidity: u128) -> (r: u64)
    ensures
        r == spec_fees_earned(delta as int, liquidity),
{
    match delta.checked_mul(liquidity) {
        Some(v) => {
            proof {
                lemma_low_u64(v / 0x1_0000_0000_0000_0000);
            }
            (v / 0x1_0000_0000_0000_0000) as u64
        },
        None => 0,
    }
}

impl Position {
    /// Credits the fees earned since the last update and records the new fee growth.
    pub fn update_fees(&mut self, fee_growth_inside_a: u128, fee_growth_inside_b: u128)
        ensures
            *final(self) == spec_update_fees(*old(self), fee_growth_inside_a, fee_growth_inside_b),
            final(self).fees_owed_a >= old(self).fees_owed_a,
            final(self).fees_owed_b >= old(self).fees_owed_b,
    {
        if self.liquidity > 0 {
            let delta_a = fee_growth_inside_a.wrapping_sub(self.fee_growth_inside_last_a);
            let delta_b = fee_growth_inside_b.wrapping_sub(self.fee_growth_inside_last_b);
            proof {
                lemma_wrapping_sub(fee_growth_inside_a, self.fee_growth_inside_last_a);
                lemma_wrapping_sub(fee_growth_inside_b, self.fee_growth_inside_last_b);
            }

            // fees = liquidity * fee_growth_delta / 2^64
            let fees_a = fees_earned(delta_a, self.liquidity);
            let fees_b = fees_earned(delta_b, self.liquidity);

            self.fees_owed_a = self.fees_owed_a.saturating_add(fees_a);
            self.fees_owed_b = self.fees_owed_b.saturating_add(fees_b);
        }
        self.fee_growth_inside_last_a = fee_growth_inside_a;
        self.fee_growth_inside_last_b = fee_growth_inside_b;
    }

    /// A position with no liquidity and no owed fees.
    pub fn is_empty(&self) -> (r: bool)
        ensures
            r == (self.liquidity == 0 && self.fees_owed_a == 0 && self.fees_owed_b == 0),
    {
        self.liquidity == 0 && self.fees_owed_a == 0 && self.fees_owed_b == 0
    }
}

} // verus!
