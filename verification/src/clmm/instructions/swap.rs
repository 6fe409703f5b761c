use vstd::prelude::*;

use crate::clmm::errors::TidePoolError;
use crate::clmm::events::SwapExecuted;
use crate::keys::same_key;
use crate::clmm::math::fee_math::{
    calculate_fee_growth_delta,
    calculate_protocol_fee,
    spec_fee_growth_delta,
    spec_protocol_fee,
};
use crate::clmm::math::liquidity_math::wrap128;
use crate::clmm::math::swap_math::{
    compute_swap_step,
    lemma_step_between_current_and_target,
    lemma_step_not_past_target,
    spec_swap_step,
    SwapStepResult,
};
use crate::clmm::math::tick_math::{
    is_tick_of_price,
    lemma_tick_of_price_unique,
    sqrt_price_at_tick,
    sqrt_price_to_tick,
    tick_to_sqrt_price,
    MAX_SQRT_PRICE,
    MIN_SQRT_PRICE,
};
use crate::clmm::state::pool::Pool;
use crate::clmm::state::position::saturating_add_u64;
use crate::clmm::state::tick::{spec_tick_offset, Tick, TickArray, MAX_TICK, MIN_TICK, TICK_ARRAY_SIZE};

verus! {

/// Addresses of the accounts that a swap is given, as far as the pool checks them.
#[derive(Debug, Clone, Copy, PartialEq, Eq)]
pub struct Swap {
    /// The pool account
    pub pool: [u8; 32],
    /// The pool's token A account
    pub token_vault_a: [u8; 32],
    /// The pool's token B account
    pub token_vault_b: [u8; 32],
    /// The signer
    pub trader: [u8; 32],
}

/// The pool's checks on the accounts of a swap, in order: the token accounts must be the
/// pool's and the three tick arrays must belong to it.
pub open spec fn spec_check_swap_accounts(accounts: Swap, pool: Pool, tick_arrays: [TickArray; 3]) -> Result<
    (),
    TidePoolError,
> {
    if accounts.token_vault_a != pool.token_vault_a || accounts.token_vault_b != pool.token_vault_b {
        Err(TidePoolError::Unauthorized)
    } else if tick_arrays[0].pool != accounts.pool || tick_arrays[1].pool != accounts.pool
        || tick_arrays[2].pool != accounts.pool {
        Err(TidePoolError::InvalidTickArray)
    } else {
        Ok(())
    }
}

impl Swap {
    /// Checks that these accounts may swap against `pool`.
    pub fn validate(&self, pool: &Pool, tick_arrays: &[TickArray; 3]) -> (r: Result<(), TidePoolError>)
        ensures
            r == spec_check_swap_accounts(*self, *pool, *tick_arrays),
    {
        if !same_key(&self.token_vault_a, &pool.token_vault_a) {
            return Err(TidePoolError::Unauthorized);
        }
        if !same_key(&self.token_vault_b, &pool.token_vault_b) {
            return Err(TidePoolError::Unauthorized);
        }
        if !same_key(&tick_arrays[0].pool, &self.pool) {
            return Err(TidePoolError::InvalidTickArray);
        }
        if !same_key(&tick_arrays[1].pool, &self.pool) {
            return Err(TidePoolError::InvalidTickArray);
        }
        if !same_key(&tick_arrays[2].pool, &self.pool) {
            return Err(TidePoolError::InvalidTickArray);
        }
        Ok(())
    }
}

/// Most swap steps one swap takes.
pub const MAX_STEPS: usize = 100;

/// Amounts a swap moves: what the trader pays in, receives out, and the fee within `amount_in`.
#[derive(Debug, Clone, Copy, PartialEq, Eq, Structural)]
pub struct SwapOutcome {
    pub amount_in: u64,
    pub amount_out: u64,
    pub fee_amount: u64,
}

/// The running state of the swap loop: the price, tick and liquidity reached, the amounts
/// so far, and the pool's fee accounting as the steps book their fees.
#[derive(Debug, Clone, Copy, PartialEq, Eq, Structural)]
pub struct SwapLoopState {
    pub sqrt_price: u128,
    pub tick: i32,
    pub liquidity: u128,
    pub amount_remaining: u64,
    pub amount_calculated: u64,
    pub total_fee: u64,
    pub array_idx: usize,
    pub fee_growth_global_a: u128,
    pub fee_growth_global_b: u128,
    pub protocol_fees_owed_a: u64,
    pub protocol_fees_owed_b: u64,
}

/// A tick the swap crossed: where it is stored, and the global fee growth at the crossing.
#[derive(Debug, Clone, Copy, PartialEq, Eq, Structural)]
pub struct TickCrossing {
    pub array_idx: usize,
    pub offset: usize,
    pub fee_growth_global_a: u128,
    pub fee_growth_global_b: u128,
}

/// The tick index of slot `i` of an array.
pub open spec fn slot_tick_index(ta: TickArray, i: int, spacing: int) -> int {
    ta.start_tick_index + i * spacing
}

/// Among the first `n` slots, the highest initialized tick at or below `current`.
pub open spec fn spec_last_initialized_at_or_below(ta: TickArray, current: int, spacing: int, n: nat) -> Option<i32>
    decreases n,
{
    if n == 0 {
        None
    } else {
        let i = n - 1;
        if slot_tick_index(ta, i, spacing) <= current && ta.ticks@[i].initialized {
            Some(slot_tick_index(ta, i, spacing) as i32)
        } else {
            spec_last_initialized_at_or_below(ta, current, spacing, (n - 1) as nat)
        }
    }
}

/// From slot `i` on, the lowest initialized tick strictly above `current`.
pub open spec fn spec_first_initialized_above(ta: TickArray, current: int, spacing: int, i: nat) -> Option<i32>
    decreases ta.ticks@.len() - i,
{
    if i >= ta.ticks@.len() {
        None
    } else if slot_tick_index(ta, i as int, spacing) > current && ta.ticks@[i as int].initialized {
        Some(slot_tick_index(ta, i as int, spacing) as i32)
    } else {
        spec_first_initialized_above(ta, current, spacing, i + 1)
    }
}

/// The next initialized tick of array `array_idx` in the swap direction: selling A, the
/// highest one at or below the current tick; selling B, the lowest one above it.
pub open spec fn spec_find_next_initialized_tick(
    tick_arrays: [TickArray; 3],
    array_idx: int,
    current_tick: int,
    tick_spacing: int,
    a_to_b: bool,
) -> Option<i32> {
    if array_idx < 0 || array_idx >= 3 {
        None
    } else if a_to_b {
        spec_last_initialized_at_or_below(tick_arrays[array_idx], current_tick, tick_spacing, tick_arrays[array_idx].ticks@.len())
    } else {
        spec_first_initialized_above(tick_arrays[array_idx], current_tick, tick_spacing, 0)
    }
}

/// The slot of `tick_index` in array `array_idx`, if that array holds it.
pub open spec fn spec_slot_in_arrays(tick_arrays: [TickArray; 3], array_idx: int, tick_index: int, tick_spacing: int) -> Option<int> {
    if array_idx < 0 || array_idx >= 3 {
        None
    } else {
        match spec_tick_offset(tick_arrays[array_idx].start_tick_index as int, tick_index, tick_spacing) {
            Some(o) => if o < tick_arrays[array_idx].ticks@.len() {
                Some(o)
            } else {
                None
            },
            None => None,
        }
    }
}

/// The tick stored for `tick_index` in array `array_idx`, if there is one.
pub open spec fn spec_tick_from_arrays(tick_arrays: [TickArray; 3], array_idx: int, tick_index: int, tick_spacing: int) -> Option<Tick> {
    match spec_slot_in_arrays(tick_arrays, array_idx, tick_index, tick_spacing) {
        Some(o) => Some(tick_arrays[array_idx].ticks@[o]),
        None => None,
    }
}

/// The three arrays are well formed.
pub open spec fn arrays_ok(tick_arrays: [TickArray; 3]) -> bool {
    forall|k: int| 0 <= k < 3 ==> #[trigger] tick_arrays[k].inv()
}

/// The sqrt price a step aims for: the next tick's price, clamped to the limit.
pub open spec fn spec_step_target(next_price: u128, limit: u128, a_to_b: bool) -> u128 {
    if a_to_b {
        if next_price >= limit { next_price } else { limit }
    } else {
        if next_price <= limit { next_price } else { limit }
    }
}

/// Remaining and calculated amounts after a step.
pub open spec fn spec_running_totals(s: SwapLoopState, step: SwapStepResult, exact_in: bool) -> Result<(u64, u64), TidePoolError> {
    if exact_in {
        if s.amount_remaining < step.amount_in + step.fee_amount || s.amount_calculated + step.amount_out > u64::MAX {
            Err(TidePoolError::MathOverflow)
        } else {
            Ok(((s.amount_remaining - step.amount_in - step.fee_amount) as u64, (s.amount_calculated + step.amount_out) as u64))
        }
    } else {
        if s.amount_remaining < step.amount_out || s.amount_calculated + step.amount_in + step.fee_amount > u64::MAX {
            Err(TidePoolError::MathOverflow)
        } else {
            Ok(((s.amount_remaining - step.amount_out) as u64, (s.amount_calculated + step.amount_in + step.fee_amount) as u64))
        }
    }
}

/// The fee accounting after a step that charged `fee` while `liquidity` was active: the
/// protocol's share is owed to it, the rest grows the input token's global fee growth per
/// unit of that liquidity. A step without fee or liquidity books nothing.
pub open spec fn spec_book_step_fee(s: SwapLoopState, fee: u64, liquidity: u128, protocol_fee_rate: u16, a_to_b: bool) -> SwapLoopState {
    if liquidity > 0 && fee > 0 {
        let protocol_fee = spec_protocol_fee(fee, protocol_fee_rate);
        let lp_fee: u64 = if fee >= protocol_fee { (fee - protocol_fee) as u64 } else { 0 };
        let growth = spec_fee_growth_delta(lp_fee, liquidity);
        if a_to_b {
            SwapLoopState {
                fee_growth_global_a: wrap128(s.fee_growth_global_a + growth) as u128,
                protocol_fees_owed_a: saturating_add_u64(s.protocol_fees_owed_a, protocol_fee),
                ..s
            }
        } else {
            SwapLoopState {
                fee_growth_global_b: wrap128(s.fee_growth_global_b + growth) as u128,
                protocol_fees_owed_b: saturating_add_u64(s.protocol_fees_owed_b, protocol_fee),
                ..s
            }
        }
    } else {
        s
    }
}

/// The tick of a sqrt price: the one supported tick whose price is at or below it while
/// the next tick's price is above it.
pub open spec fn spec_tick_at_price(sqrt_price: int) -> int {
    choose|t: int| is_tick_of_price(t, sqrt_price)
}

/// The tick after a step that did not cross a tick: unchanged when the price did not move,
/// else the tick of the new price (unchanged when the price left the supported range).
pub open spec fn spec_tick_after_move(tick: i32, old_price: u128, new_price: u128) -> i32 {
    if new_price == old_price || !(MIN_SQRT_PRICE <= new_price <= MAX_SQRT_PRICE) {
        tick
    } else {
        spec_tick_at_price(new_price as int) as i32
    }
}

/// One pass of the swap loop: the new state, the tick crossed if any, and whether the
/// loop stops after it.
#[verifier::opaque]
pub open spec fn spec_swap_iteration(
    s: SwapLoopState,
    tick_arrays: [TickArray; 3],
    tick_spacing: u16,
    sqrt_price_limit: u128,
    fee_rate: u16,
    protocol_fee_rate: u16,
    exact_in: bool,
    a_to_b: bool,
) -> Result<(SwapLoopState, Option<TickCrossing>, bool), TidePoolError> {
    let next_tick = spec_find_next_initialized_tick(tick_arrays, s.array_idx as int, s.tick as int, tick_spacing as int, a_to_b);
    let next_price: Result<u128, TidePoolError> = match next_tick {
        Some(t) => if MIN_TICK <= t <= MAX_TICK {
            Ok(sqrt_price_at_tick(t as int) as u128)
        } else {
            Err(TidePoolError::TickOutOfRange)
        },
        None => Ok(sqrt_price_limit),
    };
    match next_price {
        Err(e) => Err(e),
        Ok(np) => {
            let target = spec_step_target(np, sqrt_price_limit, a_to_b);
            match spec_swap_step(s.sqrt_price, target, s.liquidity, s.amount_remaining, fee_rate, exact_in, a_to_b) {
                Err(e) => Err(e),
                Ok(step) => match spec_running_totals(s, step, exact_in) {
                    Err(e) => Err(e),
                    Ok((remaining, calculated)) => {
                        if s.total_fee + step.fee_amount > u64::MAX {
                            Err(TidePoolError::MathOverflow)
                        } else {
                            let booked = spec_book_step_fee(s, step.fee_amount, s.liquidity, protocol_fee_rate, a_to_b);
                            let moved = SwapLoopState {
                                sqrt_price: step.sqrt_price_next,
                                tick: spec_tick_after_move(s.tick, s.sqrt_price, step.sqrt_price_next),
                                amount_remaining: remaining,
                                amount_calculated: calculated,
                                total_fee: (s.total_fee + step.fee_amount) as u64,
                                ..booked
                            };
                            match next_tick {
                                Some(nt) => {
                                    if step.sqrt_price_next == np {
                                        match spec_slot_in_arrays(tick_arrays, s.array_idx as int, nt as int, tick_spacing as int) {
                                            Some(o) => {
                                                let td = tick_arrays[s.array_idx as int].ticks@[o];
                                                match spec_liquidity_after_crossing(s.liquidity, td.liquidity_net, a_to_b) {
                                                    Ok(liquidity) => Ok((
                                                        SwapLoopState {
                                                            liquidity,
                                                            tick: if a_to_b { (nt - 1) as i32 } else { nt },
                                                            ..moved
                                                        },
                                                        Some(TickCrossing {
                                                            array_idx: s.array_idx,
                                                            offset: o as usize,
                                                            fee_growth_global_a: moved.fee_growth_global_a,
                                                            fee_growth_global_b: moved.fee_growth_global_b,
                                                        }),
                                                        false,
                                                    )),
                                                    Err(e) => Err(e),
                                                }
                                            },
                                            None => Ok((moved, None, false)),
                                        }
                                    } else {
                                        Ok((moved, None, false))
                                    }
                                },
                                None => {
                                    if s.array_idx < 2 {
                                        Ok((SwapLoopState { array_idx: (s.array_idx + 1) as usize, ..moved }, None, false))
                                    } else {
                                        Ok((moved, None, true))
                                    }
                                },
                            }
                        }
                    },
                },
            }
        },
    }
}

/// A crossing as a sequence of none or one.
pub open spec fn crossing_seq(c: Option<TickCrossing>) -> Seq<TickCrossing> {
    match c {
        Some(x) => seq![x],
        None => Seq::empty(),
    }
}

/// `r` with `prefix` put before the crossings it holds.
pub open spec fn prepend_crossings(
    prefix: Seq<TickCrossing>,
    r: Result<(SwapLoopState, Seq<TickCrossing>), TidePoolError>,
) -> Result<(SwapLoopState, Seq<TickCrossing>), TidePoolError> {
    match r {
        Ok((f, rest)) => Ok((f, prefix + rest)),
        Err(e) => Err(e),
    }
}

/// The swap loop, from state `s` after `steps` passes: the final state and the ticks
/// crossed, in order.
pub open spec fn spec_swap_loop(
    s: SwapLoopState,
    steps: nat,
    tick_arrays: [TickArray; 3],
    tick_spacing: u16,
    sqrt_price_limit: u128,
    fee_rate: u16,
    protocol_fee_rate: u16,
    exact_in: bool,
    a_to_b: bool,
) -> Result<(SwapLoopState, Seq<TickCrossing>), TidePoolError>
    decreases MAX_STEPS - steps,
{
    if s.amount_remaining > 0 && s.sqrt_price != sqrt_price_limit && steps < MAX_STEPS {
        match spec_swap_iteration(s, tick_arrays, tick_spacing, sqrt_price_limit, fee_rate, protocol_fee_rate, exact_in, a_to_b) {
            Err(e) => Err(e),
            Ok((next, c, stop)) => if stop {
                Ok((next, crossing_seq(c)))
            } else {
                prepend_crossings(
                    crossing_seq(c),
                    spec_swap_loop(next, steps + 1, tick_arrays, tick_spacing, sqrt_price_limit, fee_rate, protocol_fee_rate, exact_in, a_to_b),
                )
            },
        }
    } else {
        Ok((s, Seq::empty()))
    }
}

/// A crossed tick's fee growth outside flips to the other side: global less outside.
pub open spec fn spec_flip_tick(t: Tick, fee_growth_global_a: u128, fee_growth_global_b: u128) -> Tick {
    Tick {
        fee_growth_outside_a: wrap128(fee_growth_global_a - t.fee_growth_outside_a) as u128,
        fee_growth_outside_b: wrap128(fee_growth_global_b - t.fee_growth_outside_b) as u128,
        ..t
    }
}

/// The ticks of array `k` after the crossings `cs`, applied in order.
pub open spec fn spec_ticks_after_crossings(ticks: Seq<Tick>, k: int, cs: Seq<TickCrossing>) -> Seq<Tick>
    decreases cs.len(),
{
    if cs.len() == 0 {
        ticks
    } else {
        let prev = spec_ticks_after_crossings(ticks, k, cs.drop_last());
        let c = cs.last();
        if c.array_idx == k && c.offset < prev.len() {
            prev.update(c.offset as int, spec_flip_tick(prev[c.offset as int], c.fee_growth_global_a, c.fee_growth_global_b))
        } else {
            prev
        }
    }
}

/// The pool after a swap that ended in loop state `f`.
pub open spec fn spec_pool_after_swap(pool: Pool, f: SwapLoopState) -> Pool {
    Pool {
        sqrt_price: f.sqrt_price,
        tick_current_index: f.tick,
        liquidity: f.liquidity,
        fee_growth_global_a: f.fee_growth_global_a,
        fee_growth_global_b: f.fee_growth_global_b,
        protocol_fees_owed_a: f.protocol_fees_owed_a,
        protocol_fees_owed_b: f.protocol_fees_owed_b,
        ..pool
    }
}

/// The amounts of a swap that ended in loop state `f`.
pub open spec fn spec_swap_outcome(amount: u64, f: SwapLoopState, exact_in: bool) -> SwapOutcome {
    if exact_in {
        SwapOutcome { amount_in: (amount - f.amount_remaining) as u64, amount_out: f.amount_calculated, fee_amount: f.total_fee }
    } else {
        SwapOutcome { amount_in: f.amount_calculated, amount_out: (amount - f.amount_remaining) as u64, fee_amount: f.total_fee }
    }
}

/// The loop state a swap starts from.
pub open spec fn spec_initial_loop_state(pool: Pool, amount: u64) -> SwapLoopState {
    SwapLoopState {
        sqrt_price: pool.sqrt_price,
        tick: pool.tick_current_index,
        liquidity: pool.liquidity,
        amount_remaining: amount,
        amount_calculated: 0,
        total_fee: 0,
        array_idx: 0,
        fee_growth_global_a: pool.fee_growth_global_a,
        fee_growth_global_b: pool.fee_growth_global_b,
        protocol_fees_owed_a: pool.protocol_fees_owed_a,
        protocol_fees_owed_b: pool.protocol_fees_owed_b,
    }
}

/// What a swap gives: the new pool, the amounts to transfer and the ticks crossed, or the
/// error that refuses it.
pub open spec fn spec_swap(
    pool: Pool,
    tick_arrays: [TickArray; 3],
    amount: u64,
    other_amount_threshold: u64,
    sqrt_price_limit: u128,
    exact_in: bool,
    a_to_b: bool,
) -> Result<(Pool, SwapOutcome, Seq<TickCrossing>), TidePoolError> {
    if amount == 0 {
        Err(TidePoolError::ZeroSwapAmount)
    } else if pool.paused {
        Err(TidePoolError::PoolPaused)
    } else if (a_to_b && !(sqrt_price_limit < pool.sqrt_price)) || (!a_to_b && !(sqrt_price_limit > pool.sqrt_price)) {
        Err(TidePoolError::SqrtPriceLimitReached)
    } else {
        match spec_swap_loop(
            spec_initial_loop_state(pool, amount),
            0,
            tick_arrays,
            pool.tick_spacing,
            sqrt_price_limit,
            pool.fee_rate,
            pool.protocol_fee_rate,
            exact_in,
            a_to_b,
        ) {
            Err(e) => Err(e),
            Ok((f, cs)) => {
                let outcome = spec_swap_outcome(amount, f, exact_in);
                if exact_in && outcome.amount_out < other_amount_threshold {
                    Err(TidePoolError::SlippageExceeded)
                } else if !exact_in && outcome.amount_in > other_amount_threshold {
                    Err(TidePoolError::SlippageExceeded)
                } else {
                    Ok((spec_pool_after_swap(pool, f), outcome, cs))
                }
            },
        }
    }
}

/// Find next initialized tick in the given direction.
/// For a_to_b (price decreasing): scan backwards from current_tick to find
/// the nearest initialized tick at or below it.
/// For b_to_a (price increasing): scan forwards from current_tick to find
/// the nearest initialized tick above.
pub fn find_next_initialized_tick(
    tick_arrays: &[TickArray; 3],
    array_idx: usize,
    current_tick: i32,
    tick_spacing: u16,
    a_to_b: bool,
) -> (r: Option<i32>)
    requires
        arrays_ok(*tick_arrays),
    ensures
        r == spec_find_next_initialized_tick(*tick_arrays, array_idx as int, current_tick as int, tick_spacing as int, a_to_b),
{
    if array_idx >= 3 {
        return None;
    }
    let ta = &tick_arrays[array_idx];
    assert(ta.inv());
    assert(TICK_ARRAY_SIZE == 64);
    let spacing = tick_spacing as i32;
    assert(spacing as int == tick_spacing as int);
    let num_ticks = ta.ticks.len();

    if a_to_b {
        // Scan backwards: find the highest initialized tick <= current_tick
        let mut best: Option<i32> = None;
        let mut i: usize = 0;
        let mut stop = false;
        while i < num_ticks && !stop
            invariant
                ta.inv(),
                array_idx < 3,
                *ta == tick_arrays[array_idx as int],
                num_ticks == ta.ticks@.len(),
                0 <= i <= num_ticks,
                !stop ==> best == spec_last_initialized_at_or_below(*ta, current_tick as int, spacing as int, i as nat),
                stop ==> best == spec_last_initialized_at_or_below(*ta, current_tick as int, spacing as int, num_ticks as nat),
                spacing == tick_spacing as i32,
            decreases num_ticks - i + (if stop { 0int } else { 1int }),
        {
            assert(i * spacing <= 64 * 65535) by (nonlinear_arith)
                requires 0 <= i < 64, 0 <= spacing <= 65535;
            let tick_index = ta.start_tick_index + (i as i32) * spacing;
            if tick_index > current_tick {
                proof {
                    lemma_no_initialized_at_or_below_past(*ta, current_tick as int, spacing as int, i as nat, num_ticks as nat);
                }
                stop = true;
            } else {
                if ta.ticks[i].initialized {
                    best = Some(tick_index);
                }
                i = i + 1;
            }
        }
        best
    } else {
        // Scan forwards: find the lowest initialized tick > current_tick
        let mut i: usize = 0;
        while i < num_ticks
            invariant
                ta.inv(),
                array_idx < 3,
                *ta == tick_arrays[array_idx as int],
                num_ticks == ta.ticks@.len(),
                0 <= i <= num_ticks,
                spec_first_initialized_above(*ta, current_tick as int, spacing as int, i as nat)
                    == spec_first_initialized_above(*ta, current_tick as int, spacing as int, 0),
                spacing == tick_spacing as i32,
                !a_to_b,
            decreases num_ticks - i,
        {
            assert(i * spacing <= 64 * 65535) by (nonlinear_arith)
                requires 0 <= i < 64, 0 <= spacing <= 65535;
            let tick_index = ta.start_tick_index + (i as i32) * spacing;
            if tick_index > current_tick && ta.ticks[i].initialized {
                assert(tick_index == slot_tick_index(*ta, i as int, spacing as int));
                assert(ta.ticks@[i as int].initialized);
                assert(spec_first_initialized_above(*ta, current_tick as int, spacing as int, i as nat) == Some(tick_index));
                return Some(tick_index);
            }
            i = i + 1;
        }
        None
    }
}

/// Past the first slot above `current`, no slot is at or below it: the result of the
/// backward scan no longer changes.
proof fn lemma_no_initialized_at_or_below_past(ta: TickArray, current: int, spacing: int, i: nat, n: nat)
    requires
        i <= n,
        spacing >= 0,
        slot_tick_index(ta, i as int, spacing) > current,
    ensures
        spec_last_initialized_at_or_below(ta, current, spacing, n) == spec_last_initialized_at_or_below(ta, current, spacing, i),
    decreases n - i,
{
    if n > i {
        assert(slot_tick_index(ta, (n - 1) as int, spacing) > current) by (nonlinear_arith)
            requires
                slot_tick_index(ta, i as int, spacing) > current,
                n - 1 >= i,
                spacing >= 0,
                slot_tick_index(ta, i as int, spacing) == ta.start_tick_index + i * spacing,
                slot_tick_index(ta, (n - 1) as int, spacing) == ta.start_tick_index + (n - 1) * spacing;
        lemma_no_initialized_at_or_below_past(ta, current, spacing, i, (n - 1) as nat);
    }
}

/// Get tick data from arrays by tick index.
pub fn get_tick_from_arrays(
    tick_arrays: &[TickArray; 3],
    array_idx: usize,
    tick_index: i32,
    tick_spacing: u16,
) -> (r: Option<&Tick>)
    requires
        tick_spacing > 0,
        array_idx < 3 ==> tick_index - tick_arrays[array_idx as int].start_tick_index <= i32::MAX,
    ensures
        r matches Some(t) ==> spec_tick_from_arrays(*tick_arrays, array_idx as int, tick_index as int, tick_spacing as int) == Some(*t),
        r is None ==> spec_tick_from_arrays(*tick_arrays, array_idx as int, tick_index as int, tick_spacing as int) is None,
{
    if array_idx >= 3 {
        return None;
    }
    tick_arrays[array_idx].get_tick(tick_index, tick_spacing)
}

/// Exec twin of `spec_running_totals`.
fn running_totals(s: &SwapLoopState, step: &SwapStepResult, exact_in: bool) -> (r: Result<(u64, u64), TidePoolError>)
    ensures
        r == spec_running_totals(*s, *step, exact_in),
{
    if exact_in {
        if s.amount_remaining < step.amount_in || s.amount_remaining - step.amount_in < step.fee_amount {
            return Err(TidePoolError::MathOverflow);
        }
        if s.amount_calculated > u64::MAX - step.amount_out {
            return Err(TidePoolError::MathOverflow);
        }
        Ok((s.amount_remaining - step.amount_in - step.fee_amount, s.amount_calculated + step.amount_out))
    } else {
        if s.amount_remaining < step.amount_out {
            return Err(TidePoolError::MathOverflow);
        }
        if s.amount_calculated > u64::MAX - step.amount_in || s.amount_calculated + step.amount_in > u64::MAX - step.fee_amount {
            return Err(TidePoolError::MathOverflow);
        }
        Ok((s.amount_remaining - step.amount_out, s.amount_calculated + step.amount_in + step.fee_amount))
    }
}

/// Books one step's fee (exec twin of `spec_book_step_fee`).
fn book_step_fee(s: &SwapLoopState, fee: u64, liquidity: u128, protocol_fee_rate: u16, a_to_b: bool) -> (r: SwapLoopState)
    ensures
        r == spec_book_step_fee(*s, fee, liquidity, protocol_fee_rate, a_to_b),
{
    if liquidity > 0 && fee > 0 {
        let protocol_fee = calculate_protocol_fee(fee, protocol_fee_rate);
        let lp_fee = fee.saturating_sub(protocol_fee);
        let growth = calculate_fee_growth_delta(lp_fee, liquidity);
        proof {
            crate::clmm::math::liquidity_math::lemma_wrapping_add(s.fee_growth_global_a, growth);
            crate::clmm::math::liquidity_math::lemma_wrapping_add(s.fee_growth_global_b, growth);
        }
        if a_to_b {
            SwapLoopState {
                fee_growth_global_a: s.fee_growth_global_a.wrapping_add(growth),
                protocol_fees_owed_a: s.protocol_fees_owed_a.saturating_add(protocol_fee),
                ..*s
            }
        } else {
            SwapLoopState {
                fee_growth_global_b: s.fee_growth_global_b.wrapping_add(growth),
                protocol_fees_owed_b: s.protocol_fees_owed_b.saturating_add(protocol_fee),
                ..*s
            }
        }
    } else {
        *s
    }
}

/// The tick after a step that crossed no tick (exec twin of `spec_tick_after_move`).
fn tick_after_move(tick: i32, old_price: u128, new_price: u128) -> (r: i32)
    ensures
        r == spec_tick_after_move(tick, old_price, new_price),
{
    if new_price == old_price {
        return tick;
    }
    match sqrt_price_to_tick(new_price) {
        Ok(t) => {
            proof {
                assert(is_tick_of_price(t as int, new_price as int));
                let c = spec_tick_at_price(new_price as int);
                assert(is_tick_of_price(c, new_price as int));
                lemma_tick_of_price_unique(new_price as int, t as int, c);
            }
            t
        },
        Err(_) => tick,
    }
}

/// A crossed tick with its fee growth outside flipped (exec twin of `spec_flip_tick`).
fn flip_tick(t: Tick, fee_growth_global_a: u128, fee_growth_global_b: u128) -> (r: Tick)
    ensures
        r == spec_flip_tick(t, fee_growth_global_a, fee_growth_global_b),
{
    proof {
        crate::clmm::math::liquidity_math::lemma_wrapping_sub(fee_growth_global_a, t.fee_growth_outside_a);
        crate::clmm::math::liquidity_math::lemma_wrapping_sub(fee_growth_global_b, t.fee_growth_outside_b);
    }
    Tick {
        fee_growth_outside_a: fee_growth_global_a.wrapping_sub(t.fee_growth_outside_a),
        fee_growth_outside_b: fee_growth_global_b.wrapping_sub(t.fee_growth_outside_b),
        ..t
    }
}

/// The active liquidity after crossing a tick of net liquidity `net`: `net` is added when
/// the price rises and taken off when it falls; an error when the result leaves the `u128`
/// range, or when `net` is `i128::MIN` and the price falls (its negation is no `i128`).
pub open spec fn spec_liquidity_after_crossing(liquidity: u128, net: i128, a_to_b: bool) -> Result<u128, TidePoolError> {
    let delta = if a_to_b { -net } else { net as int };
    let l = liquidity + delta;
    if 0 <= l <= u128::MAX && !(a_to_b && net == i128::MIN) {
        Ok(l as u128)
    } else {
        Err(TidePoolError::MathOverflow)
    }
}

/// Exec twin of `spec_liquidity_after_crossing`.
fn liquidity_after_crossing(liquidity: u128, net: i128, a_to_b: bool) -> (r: Result<u128, TidePoolError>)
    ensures
        r == spec_liquidity_after_crossing(liquidity, net, a_to_b),
{
    if a_to_b && net == i128::MIN {
        return Err(TidePoolError::MathOverflow);
    }
    // liquidity_net is i128: positive at lower bound, negative at upper.
    // When crossing downward (a_to_b), we negate the net before applying.
    let liquidity_delta: i128 = if a_to_b { -net } else { net };
    if liquidity_delta >= 0 {
        let d = liquidity_delta as u128;
        if liquidity > u128::MAX - d {
            return Err(TidePoolError::MathOverflow);
        }
        Ok(liquidity + d)
    } else {
        let d: u128 = if liquidity_delta == i128::MIN { 0x8000_0000_0000_0000_0000_0000_0000_0000 } else { (-liquidity_delta) as u128 };
        if liquidity < d {
            return Err(TidePoolError::MathOverflow);
        }
        Ok(liquidity - d)
    }
}

/// One pass of the swap loop (exec twin of `spec_swap_iteration`).
#[verifier::spinoff_prover]
#[verifier::rlimit(60)]
fn swap_iteration(
    s: &SwapLoopState,
    tick_arrays: &[TickArray; 3],
    tick_spacing: u16,
    sqrt_price_limit: u128,
    fee_rate: u16,
    protocol_fee_rate: u16,
    exact_in: bool,
    a_to_b: bool,
) -> (r: Result<(SwapLoopState, Option<TickCrossing>, bool), TidePoolError>)
    requires
        arrays_ok(*tick_arrays),
        tick_spacing > 0,
    ensures
        r == spec_swap_iteration(*s, *tick_arrays, tick_spacing, sqrt_price_limit, fee_rate, protocol_fee_rate, exact_in, a_to_b),
        r matches Ok((n, _, _)) ==> n.amount_remaining <= s.amount_remaining,
        r matches Ok((n, _, _)) ==> (s.array_idx <= 2 ==> n.array_idx <= 2),
        r matches Ok((_, c, _)) ==> (c matches Some(x) ==> x.array_idx < 3 && x.offset < tick_arrays[x.array_idx as int].ticks@.len()),
{
    proof {
        reveal(spec_swap_iteration);
    }
    // Find next initialized tick in the current tick array
    let next_tick_index = find_next_initialized_tick(tick_arrays, s.array_idx, s.tick, tick_spacing, a_to_b);

    let sqrt_price_next_tick = match next_tick_index {
        Some(tick) => match tick_to_sqrt_price(tick) {
            Ok(p) => p,
            Err(e) => {
                return Err(e);
            },
        },
        None => sqrt_price_limit,
    };

    // Clamp to price limit
    let sqrt_price_target = if a_to_b {
        if sqrt_price_next_tick >= sqrt_price_limit { sqrt_price_next_tick } else { sqrt_price_limit }
    } else {
        if sqrt_price_next_tick <= sqrt_price_limit { sqrt_price_next_tick } else { sqrt_price_limit }
    };

    // Compute swap step
    let step = match compute_swap_step(
        s.sqrt_price,
        sqrt_price_target,
        s.liquidity,
        s.amount_remaining,
        fee_rate,
        exact_in,
        a_to_b,
    ) {
        Ok(step) => step,
        Err(e) => {
            return Err(e);
        },
    };

    // Update running totals
    let (amount_remaining, amount_calculated) = match running_totals(s, &step, exact_in) {
        Ok(t) => t,
        Err(e) => {
            return Err(e);
        },
    };
    if s.total_fee > u64::MAX - step.fee_amount {
        return Err(TidePoolError::MathOverflow);
    }
    // Book this step's fee at the liquidity it was earned with
    let booked = book_step_fee(s, step.fee_amount, s.liquidity, protocol_fee_rate, a_to_b);
    let moved = SwapLoopState {
        sqrt_price: step.sqrt_price_next,
        tick: tick_after_move(s.tick, s.sqrt_price, step.sqrt_price_next),
        amount_remaining,
        amount_calculated,
        total_fee: s.total_fee + step.fee_amount,
        ..booked
    };

    // If we reached the next tick, cross it
    match next_tick_index {
        Some(next_tick) => {
            if step.sqrt_price_next == sqrt_price_next_tick {
                let k = s.array_idx;
                if k >= 3 {
                    return Ok((moved, None, false));
                }
                assert(tick_arrays[k as int].inv());
                let offset = match tick_arrays[k].get_tick_offset(next_tick, tick_spacing) {
                    Some(o) => o,
                    None => {
                        return Ok((moved, None, false));
                    },
                };
                if offset >= tick_arrays[k].ticks.len() {
                    return Ok((moved, None, false));
                }
                let tick_data = tick_arrays[k].ticks[offset];
                let liquidity = match liquidity_after_crossing(s.liquidity, tick_data.liquidity_net, a_to_b) {
                    Ok(l) => l,
                    Err(e) => {
                        return Err(e);
                    },
                };
                let tick = if a_to_b { next_tick - 1 } else { next_tick };
                let crossing = TickCrossing {
                    array_idx: k,
                    offset,
                    fee_growth_global_a: moved.fee_growth_global_a,
                    fee_growth_global_b: moved.fee_growth_global_b,
                };
                Ok((SwapLoopState { liquidity, tick, ..moved }, Some(crossing), false))
            } else {
                Ok((moved, None, false))
            }
        },
        None => {
            // Move to next tick array
            if s.array_idx < 2 {
                Ok((SwapLoopState { array_idx: s.array_idx + 1, ..moved }, None, false))
            } else {
                Ok((moved, None, true))
            }
        },
    }
}

/// Flips the fee growth outside of every crossed tick, in order.
fn apply_crossings(tick_arrays: &mut [TickArray; 3], crossings: &Vec<TickCrossing>)
    requires
        arrays_ok(*old(tick_arrays)),
        forall|j: int| 0 <= j < crossings@.len() ==> (#[trigger] crossings@[j]).array_idx < 3
            && crossings@[j].offset < old(tick_arrays)[crossings@[j].array_idx as int].ticks@.len(),
    ensures
        arrays_ok(*final(tick_arrays)),
        forall|k: int| 0 <= k < 3 ==> {
            &&& (#[trigger] final(tick_arrays)[k]).ticks@ == spec_ticks_after_crossings(old(tick_arrays)[k].ticks@, k, crossings@)
            &&& final(tick_arrays)[k].pool == old(tick_arrays)[k].pool
            &&& final(tick_arrays)[k].start_tick_index == old(tick_arrays)[k].start_tick_index
            &&& final(tick_arrays)[k].bump == old(tick_arrays)[k].bump
        },
{
    let mut j: usize = 0;
    while j < crossings.len()
        invariant
            0 <= j <= crossings@.len(),
            arrays_ok(*old(tick_arrays)),
            forall|i: int| 0 <= i < crossings@.len() ==> (#[trigger] crossings@[i]).array_idx < 3
                && crossings@[i].offset < old(tick_arrays)[crossings@[i].array_idx as int].ticks@.len(),
            forall|k: int| 0 <= k < 3 ==> {
                &&& (#[trigger] tick_arrays[k]).ticks@ == spec_ticks_after_crossings(old(tick_arrays)[k].ticks@, k, crossings@.take(j as int))
                &&& tick_arrays[k].pool == old(tick_arrays)[k].pool
                &&& tick_arrays[k].start_tick_index == old(tick_arrays)[k].start_tick_index
                &&& tick_arrays[k].bump == old(tick_arrays)[k].bump
            },
            forall|k: int| 0 <= k < 3 ==> (#[trigger] tick_arrays[k]).ticks@.len() == old(tick_arrays)[k].ticks@.len(),
            arrays_ok(*tick_arrays),
        decreases crossings@.len() - j,
    {
        let c = crossings[j];
        let k = c.array_idx;
        assert(crossings@.take(j + 1).drop_last() =~= crossings@.take(j as int));
        assert(crossings@.take(j + 1).last() == c);
        let t = tick_arrays[k].ticks[c.offset];
        let flipped = flip_tick(t, c.fee_growth_global_a, c.fee_growth_global_b);
        let ghost prev = *tick_arrays;
        tick_arrays[k].ticks.set(c.offset, flipped);
        proof {
            assert forall|kk: int| 0 <= kk < 3 implies #[trigger] tick_arrays[kk].inv() by {
                assert(prev[kk].inv());
                if kk != k {
                    assert(tick_arrays[kk] == prev[kk]);
                }
            }
        }
        j = j + 1;
        assert forall|kk: int| 0 <= kk < 3 implies (#[trigger] tick_arrays[kk]).ticks@ == spec_ticks_after_crossings(
            old(tick_arrays)[kk].ticks@,
            kk,
            crossings@.take(j as int),
        ) by {
            assert(crossings@.take(j as int).drop_last() =~= crossings@.take(j - 1));
        }
    }
    assert(crossings@.take(crossings@.len() as int) =~= crossings@);
}

/// Executes a swap against the pool.
///
/// The swap walks the price through the tick arrays step by step. Each step's fee is
/// booked at the liquidity active during that step; at each initialized tick reached the
/// active liquidity changes by its net liquidity and its fee growth outside flips to the
/// other side (global less outside); the pool's tick follows the price. The result holds
/// the amounts to transfer (the trader pays `amount_in` and receives `amount_out`). On an
/// error the pool and the tick arrays are left as they were.
#[verifier::rlimit(60)]
pub fn handler(
    pool: &mut Pool,
    tick_arrays: &mut [TickArray; 3],
    amount: u64,
    other_amount_threshold: u64,
    sqrt_price_limit: u128,
    amount_specified_is_input: bool,
    a_to_b: bool,
    pool_key: [u8; 32],
    trader: [u8; 32],
) -> (r: Result<SwapExecuted, TidePoolError>)
    requires
        old(pool).inv(),
        arrays_ok(*old(tick_arrays)),
    ensures
        final(pool).inv(),
        arrays_ok(*final(tick_arrays)),
        match spec_swap(*old(pool), *old(tick_arrays), amount, other_amount_threshold, sqrt_price_limit, amount_specified_is_input, a_to_b) {
            Ok((p, o, cs)) => {
                &&& *final(pool) == p
                &&& r == Ok::<SwapExecuted, TidePoolError>(SwapExecuted {
                    pool: pool_key,
                    trader,
                    a_to_b,
                    amount_in: o.amount_in,
                    amount_out: o.amount_out,
                    fee_amount: o.fee_amount,
                    sqrt_price_after: p.sqrt_price,
                    tick_after: p.tick_current_index,
                })
                &&& forall|k: int| 0 <= k < 3 ==> {
                    &&& (#[trigger] final(tick_arrays)[k]).ticks@ == spec_ticks_after_crossings(old(tick_arrays)[k].ticks@, k, cs)
                    &&& final(tick_arrays)[k].pool == old(tick_arrays)[k].pool
                    &&& final(tick_arrays)[k].start_tick_index == old(tick_arrays)[k].start_tick_index
                    &&& final(tick_arrays)[k].bump == old(tick_arrays)[k].bump
                }
            },
            Err(e) => r == Err::<SwapExecuted, TidePoolError>(e) && *final(pool) == *old(pool) && *final(tick_arrays) == *old(tick_arrays),
        },
        // slippage protection and amount bounds
        r matches Ok(o) ==> (amount_specified_is_input ==> o.amount_out >= other_amount_threshold && o.amount_in <= amount),
        r matches Ok(o) ==> (!amount_specified_is_input ==> o.amount_in <= other_amount_threshold && o.amount_out <= amount),
        // the price never passes the limit
        r is Ok ==> (a_to_b ==> final(pool).sqrt_price >= sqrt_price_limit) && (!a_to_b ==> final(pool).sqrt_price <= sqrt_price_limit),
{
    proof {
        lemma_swap_respects_price_limit(*old(pool), *old(tick_arrays), amount, other_amount_threshold, sqrt_price_limit, amount_specified_is_input, a_to_b);
    }
    if amount == 0 {
        return Err(TidePoolError::ZeroSwapAmount);
    }
    if pool.paused {
        return Err(TidePoolError::PoolPaused);
    }

    // Validate sqrt_price_limit direction
    if a_to_b {
        if !(sqrt_price_limit < pool.sqrt_price) {
            return Err(TidePoolError::SqrtPriceLimitReached);
        }
    } else {
        if !(sqrt_price_limit > pool.sqrt_price) {
            return Err(TidePoolError::SqrtPriceLimitReached);
        }
    }

    let fee_rate = pool.fee_rate;
    let protocol_fee_rate = pool.protocol_fee_rate;
    let tick_spacing = pool.tick_spacing;
    let mut state = SwapLoopState {
        sqrt_price: pool.sqrt_price,
        tick: pool.tick_current_index,
        liquidity: pool.liquidity,
        amount_remaining: amount,
        amount_calculated: 0,
        total_fee: 0,
        array_idx: 0,
        fee_growth_global_a: pool.fee_growth_global_a,
        fee_growth_global_b: pool.fee_growth_global_b,
        protocol_fees_owed_a: pool.protocol_fees_owed_a,
        protocol_fees_owed_b: pool.protocol_fees_owed_b,
    };
    let ghost init = state;
    let ghost target = spec_swap_loop(
        init,
        0,
        *tick_arrays,
        tick_spacing,
        sqrt_price_limit,
        fee_rate,
        protocol_fee_rate,
        amount_specified_is_input,
        a_to_b,
    );
    let mut crossings: Vec<TickCrossing> = Vec::new();
    let mut steps: usize = 0;
    let mut done = false;
    proof {
        match spec_swap_loop(init, 0, *tick_arrays, tick_spacing, sqrt_price_limit, fee_rate, protocol_fee_rate, amount_specified_is_input, a_to_b) {
            Ok((f, rest)) => {
                assert(crossings@ + rest =~= rest);
            },
            Err(_) => {},
        }
    }

    // Swap loop: iterate through tick ranges
    while !done && state.amount_remaining > 0 && state.sqrt_price != sqrt_price_limit && steps < MAX_STEPS
        invariant
            arrays_ok(*tick_arrays),
            *tick_arrays == *old(tick_arrays),
            *pool == *old(pool),
            old(pool).inv(),
            amount > 0,
            !pool.paused,
            a_to_b ==> sqrt_price_limit < pool.sqrt_price,
            !a_to_b ==> sqrt_price_limit > pool.sqrt_price,
            fee_rate == pool.fee_rate,
            protocol_fee_rate == pool.protocol_fee_rate,
            tick_spacing == pool.tick_spacing,
            init == spec_initial_loop_state(*pool, amount),
            tick_spacing > 0,
            steps <= MAX_STEPS,
            state.array_idx <= 2,
            state.amount_remaining <= amount,
            forall|j: int| 0 <= j < crossings@.len() ==> (#[trigger] crossings@[j]).array_idx < 3
                && crossings@[j].offset < tick_arrays[crossings@[j].array_idx as int].ticks@.len(),
            target == spec_swap_loop(init, 0, *tick_arrays, tick_spacing, sqrt_price_limit, fee_rate, protocol_fee_rate, amount_specified_is_input, a_to_b),
            !done ==> target == prepend_crossings(
                crossings@,
                spec_swap_loop(state, steps as nat, *tick_arrays, tick_spacing, sqrt_price_limit, fee_rate, protocol_fee_rate, amount_specified_is_input, a_to_b),
            ),
            done ==> target == Ok::<(SwapLoopState, Seq<TickCrossing>), TidePoolError>((state, crossings@)),
        decreases MAX_STEPS - steps + (if done { 0int } else { 1int }),
    {
        let ghost before = crossings@;
        match swap_iteration(&state, tick_arrays, tick_spacing, sqrt_price_limit, fee_rate, protocol_fee_rate, amount_specified_is_input, a_to_b) {
            Err(e) => {
                assert(target == Err::<(SwapLoopState, Seq<TickCrossing>), TidePoolError>(e));
                return Err(e);
            },
            Ok((next, crossed, stop)) => {
                let ghost rest_loop = spec_swap_loop(next, (steps + 1) as nat, *tick_arrays, tick_spacing, sqrt_price_limit, fee_rate, protocol_fee_rate, amount_specified_is_input, a_to_b);
                match crossed {
                    Some(c) => {
                        crossings.push(c);
                    },
                    None => {},
                }
                assert(crossings@ =~= before + crossing_seq(crossed));
                proof {
                    if !stop {
                        match rest_loop {
                            Ok((f, rest)) => {
                                assert((before + crossing_seq(crossed)) + rest =~= before + (crossing_seq(crossed) + rest));
                            },
                            Err(_) => {},
                        }
                    }
                }
                state = next;
                steps = steps + 1;
                if stop {
                    done = true;
                }
            },
        }
    }
    proof {
        if !done {
            assert(crossings@ + Seq::<TickCrossing>::empty() =~= crossings@);
        }
    }
    assert(target == Ok::<(SwapLoopState, Seq<TickCrossing>), TidePoolError>((state, crossings@)));

    // Determine final amounts
    let (amount_in, amount_out) = if amount_specified_is_input {
        (amount - state.amount_remaining, state.amount_calculated)
    } else {
        (state.amount_calculated, amount - state.amount_remaining)
    };

    // Check slippage
    if amount_specified_is_input {
        if amount_out < other_amount_threshold {
            return Err(TidePoolError::SlippageExceeded);
        }
    } else {
        if amount_in > other_amount_threshold {
            return Err(TidePoolError::SlippageExceeded);
        }
    }

    // Cross the ticks: their fee growth outside flips to the other side
    apply_crossings(tick_arrays, &crossings);

    pool.sqrt_price = state.sqrt_price;
    pool.tick_current_index = state.tick;
    pool.liquidity = state.liquidity;
    pool.fee_growth_global_a = state.fee_growth_global_a;
    pool.fee_growth_global_b = state.fee_growth_global_b;
    pool.protocol_fees_owed_a = state.protocol_fees_owed_a;
    pool.protocol_fees_owed_b = state.protocol_fees_owed_b;

    Ok(
        SwapExecuted {
            pool: pool_key,
            trader,
            a_to_b,
            amount_in,
            amount_out,
            fee_amount: state.total_fee,
            sqrt_price_after: pool.sqrt_price,
            tick_after: pool.tick_current_index,
        },
    )
}

/// One pass of the swap loop never carries the price past the limit.
proof fn lemma_iteration_within_limit(
    s: SwapLoopState,
    tick_arrays: [TickArray; 3],
    tick_spacing: u16,
    sqrt_price_limit: u128,
    fee_rate: u16,
    protocol_fee_rate: u16,
    exact_in: bool,
    a_to_b: bool,
)
    ensures
        spec_swap_iteration(s, tick_arrays, tick_spacing, sqrt_price_limit, fee_rate, protocol_fee_rate, exact_in, a_to_b) matches Ok(
            (n, _, _),
        ) ==> (a_to_b ==> n.sqrt_price >= sqrt_price_limit) && (!a_to_b ==> n.sqrt_price <= sqrt_price_limit),
{
    reveal(spec_swap_iteration);
    let next_tick = spec_find_next_initialized_tick(tick_arrays, s.array_idx as int, s.tick as int, tick_spacing as int, a_to_b);
    let next_price: Result<u128, TidePoolError> = match next_tick {
        Some(t) => if MIN_TICK <= t <= MAX_TICK {
            Ok(sqrt_price_at_tick(t as int) as u128)
        } else {
            Err(TidePoolError::TickOutOfRange)
        },
        None => Ok(sqrt_price_limit),
    };
    if let Ok(np) = next_price {
        let target = spec_step_target(np, sqrt_price_limit, a_to_b);
        lemma_step_not_past_target(s.sqrt_price, target, s.liquidity, s.amount_remaining, fee_rate, exact_in, a_to_b);
    }
}

/// The swap loop never carries the price past the limit it started on the right side of.
proof fn lemma_loop_within_limit(
    s: SwapLoopState,
    steps: nat,
    tick_arrays: [TickArray; 3],
    tick_spacing: u16,
    sqrt_price_limit: u128,
    fee_rate: u16,
    protocol_fee_rate: u16,
    exact_in: bool,
    a_to_b: bool,
)
    requires
        a_to_b ==> s.sqrt_price >= sqrt_price_limit,
        !a_to_b ==> s.sqrt_price <= sqrt_price_limit,
    ensures
        spec_swap_loop(s, steps, tick_arrays, tick_spacing, sqrt_price_limit, fee_rate, protocol_fee_rate, exact_in, a_to_b) matches Ok(
            (f, _),
        ) ==> (a_to_b ==> f.sqrt_price >= sqrt_price_limit) && (!a_to_b ==> f.sqrt_price <= sqrt_price_limit),
    decreases MAX_STEPS - steps,
{
    if s.amount_remaining > 0 && s.sqrt_price != sqrt_price_limit && steps < MAX_STEPS {
        lemma_iteration_within_limit(s, tick_arrays, tick_spacing, sqrt_price_limit, fee_rate, protocol_fee_rate, exact_in, a_to_b);
        match spec_swap_iteration(s, tick_arrays, tick_spacing, sqrt_price_limit, fee_rate, protocol_fee_rate, exact_in, a_to_b) {
            Err(_) => {},
            Ok((next, _, stop)) => {
                if !stop {
                    lemma_loop_within_limit(next, steps + 1, tick_arrays, tick_spacing, sqrt_price_limit, fee_rate, protocol_fee_rate, exact_in, a_to_b);
                }
            },
        }
    }
}

/// A swap never carries the price past its limit: selling A the pool's price ends at or
/// above the limit, selling B at or below it.
pub proof fn lemma_swap_respects_price_limit(
    pool: Pool,
    tick_arrays: [TickArray; 3],
    amount: u64,
    other_amount_threshold: u64,
    sqrt_price_limit: u128,
    exact_in: bool,
    a_to_b: bool,
)
    ensures
        spec_swap(pool, tick_arrays, amount, other_amount_threshold, sqrt_price_limit, exact_in, a_to_b) matches Ok(
            (p, _, _),
        ) ==> (a_to_b ==> p.sqrt_price >= sqrt_price_limit) && (!a_to_b ==> p.sqrt_price <= sqrt_price_limit),
{
    if (a_to_b && sqrt_price_limit < pool.sqrt_price) || (!a_to_b && sqrt_price_limit > pool.sqrt_price) {
        lemma_loop_within_limit(
            spec_initial_loop_state(pool, amount),
            0,
            tick_arrays,
            pool.tick_spacing,
            sqrt_price_limit,
            pool.fee_rate,
            pool.protocol_fee_rate,
            exact_in,
            a_to_b,
        );
    }
}

/// The tick `t` agrees with the sqrt price `p`: `p` lies between the prices of `t` and
/// `t + 1` (`t` may be one below the lowest tick, for the lowest price itself).
pub open spec fn tick_matches_price(t: int, p: int) -> bool {
    &&& MIN_TICK - 1 <= t <= MAX_TICK
    &&& (t >= MIN_TICK ==> sqrt_price_at_tick(t) <= p)
    &&& (t < MAX_TICK ==> p <= sqrt_price_at_tick(t + 1))
}

/// The backward scan only finds ticks at or below the current one.
proof fn lemma_last_at_or_below_bound(ta: TickArray, current: int, spacing: int, n: nat)
    requires
        ta.inv(),
        0 <= spacing <= 65535,
        n <= ta.ticks@.len(),
    ensures
        spec_last_initialized_at_or_below(ta, current, spacing, n) matches Some(x) ==> x <= current,
    decreases n,
{
    if n > 0 {
        assert(0 <= (n - 1) * spacing <= 64 * 65535) by (nonlinear_arith)
            requires n - 1 < 64, 0 <= spacing <= 65535, n >= 1;
        lemma_last_at_or_below_bound(ta, current, spacing, (n - 1) as nat);
    }
}

/// The forward scan only finds ticks above the current one.
proof fn lemma_first_above_bound(ta: TickArray, current: int, spacing: int, i: nat)
    requires
        ta.inv(),
        0 <= spacing <= 65535,
    ensures
        spec_first_initialized_above(ta, current, spacing, i) matches Some(x) ==> x > current,
    decreases ta.ticks@.len() - i,
{
    if i < ta.ticks@.len() {
        assert(0 <= i * spacing <= 64 * 65535) by (nonlinear_arith)
            requires i < 64, 0 <= spacing <= 65535;
        lemma_first_above_bound(ta, current, spacing, i + 1);
    }
}

/// Searching down from `hi`, a price within the bounds has a tick.
proof fn lemma_tick_found_below(p: int, hi: int)
    requires
        MIN_TICK <= hi <= MAX_TICK,
        sqrt_price_at_tick(MIN_TICK as int) <= p,
        hi == MAX_TICK || p < sqrt_price_at_tick(hi + 1),
    ensures
        exists|t: int| is_tick_of_price(t, p),
    decreases hi - MIN_TICK,
{
    if sqrt_price_at_tick(hi) <= p {
        assert(is_tick_of_price(hi, p));
    } else {
        lemma_tick_found_below(p, hi - 1);
    }
}

/// Every price within the bounds has a tick, and `spec_tick_at_price` names it.
proof fn lemma_tick_at_price(p: int)
    requires
        MIN_SQRT_PRICE <= p <= MAX_SQRT_PRICE,
    ensures
        is_tick_of_price(spec_tick_at_price(p), p),
{
    crate::clmm::math::tick_math::lemma_sqrt_price_extremes();
    lemma_tick_found_below(p, MAX_TICK as int);
}

/// Neighbouring tick prices are ordered (not strictly) over `[MIN_TICK - 1, MAX_TICK]`.
proof fn lemma_price_order(t: int, u: int)
    requires
        MIN_TICK <= t <= u <= MAX_TICK,
    ensures
        sqrt_price_at_tick(t) <= sqrt_price_at_tick(u),
{
    if t < u {
        crate::clmm::math::tick_math::lemma_sqrt_price_strictly_increasing(t, u);
    }
}

/// One pass of the swap loop keeps the tick in agreement with the price, and the price
/// between the limit and where it was.
#[verifier::spinoff_prover]
#[verifier::rlimit(60)]
proof fn lemma_iteration_keeps_tick(
    s: SwapLoopState,
    tick_arrays: [TickArray; 3],
    tick_spacing: u16,
    sqrt_price_limit: u128,
    fee_rate: u16,
    protocol_fee_rate: u16,
    exact_in: bool,
    a_to_b: bool,
)
    requires
        arrays_ok(tick_arrays),
        tick_matches_price(s.tick as int, s.sqrt_price as int),
        MIN_SQRT_PRICE <= sqrt_price_limit <= MAX_SQRT_PRICE,
        MIN_SQRT_PRICE <= s.sqrt_price <= MAX_SQRT_PRICE,
        a_to_b ==> sqrt_price_limit <= s.sqrt_price,
        !a_to_b ==> s.sqrt_price <= sqrt_price_limit,
    ensures
        spec_swap_iteration(s, tick_arrays, tick_spacing, sqrt_price_limit, fee_rate, protocol_fee_rate, exact_in, a_to_b) matches Ok(
            (n, _, _),
        ) ==> {
            &&& tick_matches_price(n.tick as int, n.sqrt_price as int)
            &&& MIN_SQRT_PRICE <= n.sqrt_price <= MAX_SQRT_PRICE
            &&& a_to_b ==> sqrt_price_limit <= n.sqrt_price <= s.sqrt_price
            &&& !a_to_b ==> s.sqrt_price <= n.sqrt_price <= sqrt_price_limit
        },
{
    reveal(spec_swap_iteration);
    let k = s.array_idx as int;
    if 0 <= k < 3 {
        assert(tick_arrays[k].inv());
        lemma_last_at_or_below_bound(tick_arrays[k], s.tick as int, tick_spacing as int, tick_arrays[k].ticks@.len());
        lemma_first_above_bound(tick_arrays[k], s.tick as int, tick_spacing as int, 0);
    }
    let next_tick = spec_find_next_initialized_tick(tick_arrays, s.array_idx as int, s.tick as int, tick_spacing as int, a_to_b);
    match next_tick {
        Some(t) => {
            if MIN_TICK <= t <= MAX_TICK {
                let np = sqrt_price_at_tick(t as int);
                crate::clmm::math::tick_math::lemma_sqrt_price_in_bounds(t as int);
                if a_to_b {
                    // t is at or below the tick, whose price is at or below the current one
                    lemma_price_order(t as int, s.tick as int);
                    if t >= MIN_TICK + 1 {
                        lemma_price_order((t - 1) as int, t as int);
                    }
                } else {
                    lemma_price_order((s.tick + 1) as int, t as int);
                    if t < MAX_TICK {
                        lemma_price_order(t as int, (t + 1) as int);
                    }
                }
                let target = spec_step_target(np as u128, sqrt_price_limit, a_to_b);
                lemma_step_between_current_and_target(s.sqrt_price, target, s.liquidity, s.amount_remaining, fee_rate, exact_in, a_to_b);
                match spec_swap_step(s.sqrt_price, target, s.liquidity, s.amount_remaining, fee_rate, exact_in, a_to_b) {
                    Ok(step) => {
                        if step.sqrt_price_next != s.sqrt_price {
                            lemma_tick_at_price(step.sqrt_price_next as int);
                        }
                    },
                    Err(_) => {},
                }
            }
        },
        None => {
            let target = spec_step_target(sqrt_price_limit, sqrt_price_limit, a_to_b);
            lemma_step_between_current_and_target(s.sqrt_price, target, s.liquidity, s.amount_remaining, fee_rate, exact_in, a_to_b);
            match spec_swap_step(s.sqrt_price, target, s.liquidity, s.amount_remaining, fee_rate, exact_in, a_to_b) {
                Ok(step) => {
                    if step.sqrt_price_next != s.sqrt_price {
                        lemma_tick_at_price(step.sqrt_price_next as int);
                    }
                },
                Err(_) => {},
            }
        },
    }
}

/// The swap loop keeps the tick in agreement with the price.
proof fn lemma_loop_keeps_tick(
    s: SwapLoopState,
    steps: nat,
    tick_arrays: [TickArray; 3],
    tick_spacing: u16,
    sqrt_price_limit: u128,
    fee_rate: u16,
    protocol_fee_rate: u16,
    exact_in: bool,
    a_to_b: bool,
)
    requires
        arrays_ok(tick_arrays),
        tick_matches_price(s.tick as int, s.sqrt_price as int),
        MIN_SQRT_PRICE <= sqrt_price_limit <= MAX_SQRT_PRICE,
        MIN_SQRT_PRICE <= s.sqrt_price <= MAX_SQRT_PRICE,
        a_to_b ==> sqrt_price_limit <= s.sqrt_price,
        !a_to_b ==> s.sqrt_price <= sqrt_price_limit,
    ensures
        spec_swap_loop(s, steps, tick_arrays, tick_spacing, sqrt_price_limit, fee_rate, protocol_fee_rate, exact_in, a_to_b) matches Ok(
            (f, _),
        ) ==> {
            &&& tick_matches_price(f.tick as int, f.sqrt_price as int)
            &&& a_to_b ==> sqrt_price_limit <= f.sqrt_price <= s.sqrt_price
            &&& !a_to_b ==> s.sqrt_price <= f.sqrt_price <= sqrt_price_limit
        },
    decreases MAX_STEPS - steps,
{
    if s.amount_remaining > 0 && s.sqrt_price != sqrt_price_limit && steps < MAX_STEPS {
        lemma_iteration_keeps_tick(s, tick_arrays, tick_spacing, sqrt_price_limit, fee_rate, protocol_fee_rate, exact_in, a_to_b);
        match spec_swap_iteration(s, tick_arrays, tick_spacing, sqrt_price_limit, fee_rate, protocol_fee_rate, exact_in, a_to_b) {
            Err(_) => {},
            Ok((next, _, stop)) => {
                if !stop {
                    lemma_loop_keeps_tick(next, steps + 1, tick_arrays, tick_spacing, sqrt_price_limit, fee_rate, protocol_fee_rate, exact_in, a_to_b);
                }
            },
        }
    }
}

/// A swap keeps the pool's tick in agreement with its price, and moves the price only
/// toward its limit: when the tick agreed with the price before, and the price and the
/// limit lie within the supported bounds, the price after the swap lies between the
/// prices of the new tick and the tick above it, and between the old price and the limit.
pub proof fn lemma_swap_keeps_tick_with_price(
    pool: Pool,
    tick_arrays: [TickArray; 3],
    amount: u64,
    other_amount_threshold: u64,
    sqrt_price_limit: u128,
    exact_in: bool,
    a_to_b: bool,
)
    requires
        arrays_ok(tick_arrays),
        tick_matches_price(pool.tick_current_index as int, pool.sqrt_price as int),
        MIN_SQRT_PRICE <= pool.sqrt_price <= MAX_SQRT_PRICE,
        MIN_SQRT_PRICE <= sqrt_price_limit <= MAX_SQRT_PRICE,
    ensures
        spec_swap(pool, tick_arrays, amount, other_amount_threshold, sqrt_price_limit, exact_in, a_to_b) matches Ok(
            (p, _, _),
        ) ==> {
            &&& tick_matches_price(p.tick_current_index as int, p.sqrt_price as int)
            &&& a_to_b ==> sqrt_price_limit <= p.sqrt_price <= pool.sqrt_price
            &&& !a_to_b ==> pool.sqrt_price <= p.sqrt_price <= sqrt_price_limit
        },
{
    if (a_to_b && sqrt_price_limit < pool.sqrt_price) || (!a_to_b && sqrt_price_limit > pool.sqrt_price) {
        lemma_loop_keeps_tick(
            spec_initial_loop_state(pool, amount),
            0,
            tick_arrays,
            pool.tick_spacing,
            sqrt_price_limit,
            pool.fee_rate,
            pool.protocol_fee_rate,
            exact_in,
            a_to_b,
        );
    }
}

/// Crossing a tick: when a pass of the swap loop crosses a tick, the active liquidity
/// changes by the tick's net liquidity (taken off when the price falls), and the crossing
/// records the global fee growth the pool has at that moment.
pub proof fn lemma_crossing_moves_liquidity(
    s: SwapLoopState,
    tick_arrays: [TickArray; 3],
    tick_spacing: u16,
    sqrt_price_limit: u128,
    fee_rate: u16,
    protocol_fee_rate: u16,
    exact_in: bool,
    a_to_b: bool,
)
    requires
        arrays_ok(tick_arrays),
        tick_spacing > 0,
    ensures
        spec_swap_iteration(s, tick_arrays, tick_spacing, sqrt_price_limit, fee_rate, protocol_fee_rate, exact_in, a_to_b) matches Ok(
            (n, c, _),
        ) ==> (c matches Some(x) ==> {
            &&& x.array_idx < 3
            &&& x.offset < tick_arrays[x.array_idx as int].ticks@.len()
            &&& x.array_idx == s.array_idx
            &&& n.liquidity == s.liquidity + (if a_to_b {
                -tick_arrays[x.array_idx as int].ticks@[x.offset as int].liquidity_net
            } else {
                tick_arrays[x.array_idx as int].ticks@[x.offset as int].liquidity_net as int
            })
            &&& x.fee_growth_global_a == n.fee_growth_global_a
            &&& x.fee_growth_global_b == n.fee_growth_global_b
        }),
{
    reveal(spec_swap_iteration);
    let next_tick = spec_find_next_initialized_tick(tick_arrays, s.array_idx as int, s.tick as int, tick_spacing as int, a_to_b);
    if let Some(nt) = next_tick {
        if let Some(o) = spec_slot_in_arrays(tick_arrays, s.array_idx as int, nt as int, tick_spacing as int) {
            assert(tick_arrays[s.array_idx as int].inv());
            vstd::arithmetic::div_mod::lemma_div_pos_is_pos(nt - tick_arrays[s.array_idx as int].start_tick_index, tick_spacing as int);
            assert(0 <= o < 64);
            assert((o as usize) as int == o);
            let td = tick_arrays[s.array_idx as int].ticks@[o];
            if let Ok(l) = spec_liquidity_after_crossing(s.liquidity, td.liquidity_net, a_to_b) {
                assert(l == s.liquidity + (if a_to_b { -td.liquidity_net } else { td.liquidity_net as int }));
            }
        }
    }
}

/// Crossing flips a tick's fee growth outside to the other side: after the crossing `c`,
/// the tick it names holds, for each token, the global growth at the crossing less the
/// growth it held outside (modulo `2^128`), and keeps its liquidity; every other tick is
/// left as it was.
pub proof fn lemma_crossing_flips_outside_growth(ticks: Seq<Tick>, k: int, c: TickCrossing)
    requires
        c.array_idx == k,
        c.offset < ticks.len(),
    ensures
        spec_ticks_after_crossings(ticks, k, seq![c]).len() == ticks.len(),
        spec_ticks_after_crossings(ticks, k, seq![c])[c.offset as int].fee_growth_outside_a == wrap128(
            c.fee_growth_global_a - ticks[c.offset as int].fee_growth_outside_a,
        ),
        spec_ticks_after_crossings(ticks, k, seq![c])[c.offset as int].fee_growth_outside_b == wrap128(
            c.fee_growth_global_b - ticks[c.offset as int].fee_growth_outside_b,
        ),
        spec_ticks_after_crossings(ticks, k, seq![c])[c.offset as int].liquidity_net == ticks[c.offset as int].liquidity_net,
        spec_ticks_after_crossings(ticks, k, seq![c])[c.offset as int].liquidity_gross == ticks[c.offset as int].liquidity_gross,
        forall|j: int| 0 <= j < ticks.len() && j != c.offset ==> spec_ticks_after_crossings(ticks, k, seq![c])[j] == ticks[j],
{
    assert(seq![c].drop_last() =~= Seq::<TickCrossing>::empty());
    assert(spec_ticks_after_crossings(ticks, k, Seq::<TickCrossing>::empty()) == ticks);
    let t = ticks[c.offset as int];
    crate::clmm::math::liquidity_math::lemma_wrapping_sub(c.fee_growth_global_a, t.fee_growth_outside_a);
    crate::clmm::math::liquidity_math::lemma_wrapping_sub(c.fee_growth_global_b, t.fee_growth_outside_b);
}

/// An exact-output step charges as fee the fee rate of its input, rounded down.
proof fn lemma_exact_out_step_fee(
    sqrt_price_current: u128,
    sqrt_price_target: u128,
    liquidity: u128,
    amount_remaining: u64,
    fee_rate: u16,
    a_to_b: bool,
)
    ensures
        spec_swap_step(sqrt_price_current, sqrt_price_target, liquidity, amount_remaining, fee_rate, false, a_to_b) matches Ok(st)
            ==> st.fee_amount * 1_000_000 <= st.amount_in * fee_rate < (st.fee_amount + 1) * 1_000_000,
{
    if let Ok(st) = spec_swap_step(sqrt_price_current, sqrt_price_target, liquidity, amount_remaining, fee_rate, false, a_to_b) {
        let x = st.amount_in * fee_rate;
        assert(x >= 0) by (nonlinear_arith)
            requires x == st.amount_in * fee_rate, st.amount_in >= 0, fee_rate >= 0;
        vstd::arithmetic::div_mod::lemma_fundamental_div_mod(x, 1_000_000);
        vstd::arithmetic::div_mod::lemma_mod_pos_bound(x, 1_000_000);
        assert(x / 1_000_000 <= st.amount_in) by (nonlinear_arith)
            requires x == st.amount_in * fee_rate, fee_rate <= 65535, x == 1_000_000 * (x / 1_000_000) + x % 1_000_000,
                x % 1_000_000 >= 0, st.amount_in >= 0;
        if liquidity == 0 {
            assert(st.amount_in == 0 && st.fee_amount == 0);
            assert(x == 0) by (nonlinear_arith)
                requires x == st.amount_in * fee_rate, st.amount_in == 0;
        } else {
            assert(st.fee_amount == x / 1_000_000);
        }
    }
}

/// One pass of an exact-output swap adds to the trader's input the step's input plus its
/// fee, and to the fee total that fee, the fee rate of the step's input rounded down.
proof fn lemma_exact_out_iteration_fee(
    s: SwapLoopState,
    tick_arrays: [TickArray; 3],
    tick_spacing: u16,
    sqrt_price_limit: u128,
    fee_rate: u16,
    protocol_fee_rate: u16,
    a_to_b: bool,
)
    ensures
        spec_swap_iteration(s, tick_arrays, tick_spacing, sqrt_price_limit, fee_rate, protocol_fee_rate, false, a_to_b) matches Ok(
            (n, _, _),
        ) ==> {
            let d_fee = n.total_fee - s.total_fee;
            let d_in = n.amount_calculated - s.amount_calculated - d_fee;
            &&& d_fee >= 0
            &&& d_in >= 0
            &&& d_fee * 1_000_000 <= d_in * fee_rate
            &&& d_in * fee_rate < (d_fee + 1) * 1_000_000
        },
{
    reveal(spec_swap_iteration);
    let next_tick = spec_find_next_initialized_tick(tick_arrays, s.array_idx as int, s.tick as int, tick_spacing as int, a_to_b);
    let next_price: Result<u128, TidePoolError> = match next_tick {
        Some(t) => if MIN_TICK <= t <= MAX_TICK {
            Ok(sqrt_price_at_tick(t as int) as u128)
        } else {
            Err(TidePoolError::TickOutOfRange)
        },
        None => Ok(sqrt_price_limit),
    };
    if let Ok(np) = next_price {
        let target = spec_step_target(np, sqrt_price_limit, a_to_b);
        lemma_exact_out_step_fee(s.sqrt_price, target, s.liquidity, s.amount_remaining, fee_rate, a_to_b);
    }
}

/// From pass `steps` on, an exact-output swap adds to the trader's input the inputs of its
/// steps plus their fees, and each fee is the fee rate of its step's input rounded down, so
/// that together the fees lie within one unit per remaining pass of the fee rate of the
/// inputs.
proof fn lemma_exact_out_loop_fee(
    s: SwapLoopState,
    steps: nat,
    tick_arrays: [TickArray; 3],
    tick_spacing: u16,
    sqrt_price_limit: u128,
    fee_rate: u16,
    protocol_fee_rate: u16,
    a_to_b: bool,
)
    requires
        steps <= MAX_STEPS,
    ensures
        spec_swap_loop(s, steps, tick_arrays, tick_spacing, sqrt_price_limit, fee_rate, protocol_fee_rate, false, a_to_b) matches Ok(
            (f, _),
        ) ==> {
            let d_fee = f.total_fee - s.total_fee;
            let d_in = f.amount_calculated - s.amount_calculated - d_fee;
            &&& d_fee >= 0
            &&& d_in >= 0
            &&& d_fee * 1_000_000 <= d_in * fee_rate
            &&& d_in * fee_rate <= (d_fee + (MAX_STEPS - steps)) * 1_000_000
        },
    decreases MAX_STEPS - steps,
{
    if s.amount_remaining > 0 && s.sqrt_price != sqrt_price_limit && steps < MAX_STEPS {
        lemma_exact_out_iteration_fee(s, tick_arrays, tick_spacing, sqrt_price_limit, fee_rate, protocol_fee_rate, a_to_b);
        match spec_swap_iteration(s, tick_arrays, tick_spacing, sqrt_price_limit, fee_rate, protocol_fee_rate, false, a_to_b) {
            Err(_) => {},
            Ok((next, _, stop)) => {
                if !stop {
                    lemma_exact_out_loop_fee(next, steps + 1, tick_arrays, tick_spacing, sqrt_price_limit, fee_rate, protocol_fee_rate, a_to_b);
                    if let Ok((f, _)) = spec_swap_loop(next, steps + 1, tick_arrays, tick_spacing, sqrt_price_limit, fee_rate, protocol_fee_rate, false, a_to_b) {
                        let f1 = next.total_fee - s.total_fee;
                        let i1 = next.amount_calculated - s.amount_calculated - f1;
                        let f2 = f.total_fee - next.total_fee;
                        let i2 = f.amount_calculated - next.amount_calculated - f2;
                        let k = MAX_STEPS - steps;
                        assert((f1 + f2) * 1_000_000 <= (i1 + i2) * fee_rate) by (nonlinear_arith)
                            requires f1 * 1_000_000 <= i1 * fee_rate, f2 * 1_000_000 <= i2 * fee_rate;
                        assert((i1 + i2) * fee_rate <= (f1 + f2 + k) * 1_000_000) by (nonlinear_arith)
                            requires i1 * fee_rate < (f1 + 1) * 1_000_000, i2 * fee_rate <= (f2 + (k - 1)) * 1_000_000;
                    }
                } else {
                    assert((next.total_fee - s.total_fee + 1) * 1_000_000 <= (next.total_fee - s.total_fee + (MAX_STEPS - steps)) * 1_000_000);
                }
            },
        }
    } else {
        assert(0 * (fee_rate as int) == 0);
    }
}

/// An exact-output swap charges the trader its fee on top of the input that moves the
/// price: the reported input is that input plus the fee, and the fee is the fee rate of
/// that input, rounded down step by step (so within one unit per step of it).
pub proof fn lemma_exact_output_swap_charges_its_fee(
    pool: Pool,
    tick_arrays: [TickArray; 3],
    amount: u64,
    other_amount_threshold: u64,
    sqrt_price_limit: u128,
    a_to_b: bool,
)
    ensures
        spec_swap(pool, tick_arrays, amount, other_amount_threshold, sqrt_price_limit, false, a_to_b) matches Ok((_, o, _)) ==> {
            &&& o.fee_amount <= o.amount_in
            &&& o.fee_amount * 1_000_000 <= (o.amount_in - o.fee_amount) * pool.fee_rate
            &&& (o.amount_in - o.fee_amount) * pool.fee_rate <= (o.fee_amount + MAX_STEPS) * 1_000_000
        },
{
    lemma_exact_out_loop_fee(
        spec_initial_loop_state(pool, amount),
        0,
        tick_arrays,
        pool.tick_spacing,
        sqrt_price_limit,
        pool.fee_rate,
        pool.protocol_fee_rate,
        a_to_b,
    );
}

} // verus!
