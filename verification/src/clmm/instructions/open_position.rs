use vstd::prelude::*;

use crate::clmm::errors::TidePoolError;
use crate::clmm::state::pool::Pool;
use crate::clmm::state::position::Position;
use crate::clmm::state::tick::{check_tick_alignment, check_tick_bounds, MAX_TICK, MIN_TICK};

verus! {

/// The errors that refuse a position over `[tick_lower_index, tick_upper_index)`, in the
/// order they are checked.
pub open spec fn spec_open_position_error(tick_spacing: u16, tick_lower_index: i32, tick_upper_index: i32) -> Option<TidePoolError> {
    if !(tick_lower_index < tick_upper_index) {
        Some(TidePoolError::InvalidTickRange)
    } else if !(MIN_TICK <= tick_lower_index <= MAX_TICK && MIN_TICK <= tick_upper_index <= MAX_TICK) {
        Some(TidePoolError::TickOutOfRange)
    } else if !((tick_lower_index as int) % (tick_spacing as int) == 0 && (tick_upper_index as int) % (tick_spacing as int) == 0) {
        Some(TidePoolError::TickNotAligned)
    } else {
        None
    }
}

/// Opens an empty position of `owner` over `[tick_lower_index, tick_upper_index)`.
pub fn handler(
    pool: &Pool,
    pool_key: [u8; 32],
    owner: [u8; 32],
    position_mint: [u8; 32],
    tick_lower_index: i32,
    tick_upper_index: i32,
    bump: u8,
) -> (r: Result<Position, TidePoolError>)
    requires
        pool.inv(),
    ensures
        match spec_open_position_error(pool.tick_spacing, tick_lower_index, tick_upper_index) {
            Some(e) => r == Err::<Position, TidePoolError>(e),
            None => r == Ok::<Position, TidePoolError>(Position {
                pool: pool_key,
                owner,
                position_mint,
                tick_lower_index,
                tick_upper_index,
                liquidity: 0,
                fee_growth_inside_last_a: 0,
                fee_growth_inside_last_b: 0,
                fees_owed_a: 0,
                fees_owed_b: 0,
                bump,
            }),
        },
{
    // Validate tick range
    if !(tick_lower_index < tick_upper_index) {
        return Err(TidePoolError::InvalidTickRange);
    }
    if !(check_tick_bounds(tick_lower_index) && check_tick_bounds(tick_upper_index)) {
        return Err(TidePoolError::TickOutOfRange);
    }
    if !(check_tick_alignment(tick_lower_index, pool.tick_spacing) && check_tick_alignment(tick_upper_index, pool.tick_spacing)) {
        return Err(TidePoolError::TickNotAligned);
    }

    Ok(Position {
        pool: pool_key,
        owner,
        position_mint,
        tick_lower_index,
        tick_upper_index,
        liquidity: 0,
        fee_growth_inside_last_a: 0,
        fee_growth_inside_last_b: 0,
        fees_owed_a: 0,
        fees_owed_b: 0,
        bump,
    })
}

} // verus!
