use vstd::prelude::*;

use crate::clmm::errors::TidePoolError;
use crate::clmm::state::pool::Pool;
use crate::clmm::state::tick::{check_tick_bounds, lemma_divisible_abs, Tick, TickArray, MAX_TICK, MIN_TICK, TICK_ARRAY_SIZE};

verus! {

/// Creates the tick array of `pool` starting at `start_tick_index`, with every tick
/// uninitialized.
pub fn handler(pool: &Pool, pool_key: [u8; 32], start_tick_index: i32, bump: u8) -> (r: Result<TickArray, TidePoolError>)
    requires
        pool.inv(),
    ensures
        (start_tick_index as int) % (TICK_ARRAY_SIZE * pool.tick_spacing) as int != 0
            ==> r == Err::<TickArray, TidePoolError>(TidePoolError::TickNotAligned),
        (start_tick_index as int) % (TICK_ARRAY_SIZE * pool.tick_spacing) as int == 0 && !(MIN_TICK <= start_tick_index <= MAX_TICK)
            ==> r == Err::<TickArray, TidePoolError>(TidePoolError::TickOutOfRange),
        r is Ok <==> (start_tick_index as int) % (TICK_ARRAY_SIZE * pool.tick_spacing) as int == 0
            && MIN_TICK <= start_tick_index <= MAX_TICK,
        r matches Ok(ta) ==> {
            &&& ta.inv()
            &&& ta.pool == pool_key
            &&& ta.start_tick_index == start_tick_index
            &&& ta.bump == bump
            &&& forall|i: int| 0 <= i < TICK_ARRAY_SIZE ==> {
                let t = #[trigger] ta.ticks@[i];
                &&& !t.initialized
                &&& t.liquidity_net == 0
                &&& t.liquidity_gross == 0
                &&& t.fee_growth_outside_a == 0
                &&& t.fee_growth_outside_b == 0
            }
        },
{
    // Validate start tick index alignment
    let ticks_in_array: u32 = TICK_ARRAY_SIZE as u32 * pool.tick_spacing as u32;
    let magnitude: u32 = if start_tick_index < 0 { (-(start_tick_index as i64)) as u32 } else { start_tick_index as u32 };
    proof {
        lemma_divisible_abs(start_tick_index as int, ticks_in_array as int);
    }
    if magnitude % ticks_in_array != 0 {
        return Err(TidePoolError::TickNotAligned);
    }
    if !check_tick_bounds(start_tick_index) {
        return Err(TidePoolError::TickOutOfRange);
    }

    let mut ticks: Vec<Tick> = Vec::new();
    let mut i: usize = 0;
    while i < TICK_ARRAY_SIZE
        invariant
            0 <= i <= TICK_ARRAY_SIZE,
            ticks@.len() == i,
            forall|j: int| 0 <= j < i ==> {
                let t = #[trigger] ticks@[j];
                &&& !t.initialized
                &&& t.liquidity_net == 0
                &&& t.liquidity_gross == 0
                &&& t.fee_growth_outside_a == 0
                &&& t.fee_growth_outside_b == 0
            },
        decreases TICK_ARRAY_SIZE - i,
    {
        ticks.push(Tick::default());
        i = i + 1;
    }

    Ok(TickArray { pool: pool_key, start_tick_index, ticks, bump })
}

} // verus!
