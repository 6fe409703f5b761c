use vstd::prelude::*;

use crate::clmm::math::sqrt_price_math::{lemma_amount_a_rounding, lemma_amount_b_rounding};

use crate::clmm::errors::TidePoolError;
use crate::clmm::events::LiquidityRemoved;
use crate::clmm::instructions::add_liquidity::{
    amounts_stand_for_liquidity,
    lemma_liquidity_amounts_stand_for_liquidity,
    liquidity_amounts,
    locate_tick,
    spec_add_liquidity,
    spec_fee_growth_inside_pair,
    spec_liquidity_amounts,
    spec_tick_in,
    tick_replaced,
    LiquidityChange,
};
use crate::clmm::math::liquidity_math::{add_liquidity_delta, calculate_fee_growth_inside, lemma_as_i128_min};
use crate::clmm::math::tick_math::{sqrt_price_at_tick, tick_to_sqrt_price};
use crate::clmm::state::pool::{spec_in_range, Pool};
use crate::clmm::state::position::{spec_update_fees, Position};
use crate::clmm::state::tick::{spec_tick_offset, Tick, TickArray, MAX_TICK, MIN_TICK};

verus! {

/// A boundary tick after `liquidity` was removed from a position that starts (`is_lower`)
/// or ends at it; a tick that no position references any more becomes uninitialized. A
/// liquidity beyond `i128::MAX` cannot be a net change and is refused.
pub open spec fn spec_tick_after_remove(t: Tick, liquidity: u128, is_lower: bool) -> Result<Tick, TidePoolError> {
    let net = if is_lower { t.liquidity_net - liquidity } else { t.liquidity_net + liquidity };
    if liquidity > i128::MAX || !(i128::MIN <= net <= i128::MAX) || t.liquidity_gross < liquidity {
        Err(TidePoolError::MathOverflow)
    } else {
        let gross = (t.liquidity_gross - liquidity) as u128;
        Ok(Tick {
            liquidity_net: net as i128,
            liquidity_gross: gross,
            initialized: if gross == 0 { false } else { t.initialized },
            ..t
        })
    }
}

/// Exec twin of `spec_tick_after_remove`.
pub fn tick_after_remove(t: Tick, liquidity: u128, is_lower: bool) -> (r: Result<Tick, TidePoolError>)
    ensures
        r == spec_tick_after_remove(t, liquidity, is_lower),
{
    if liquidity > i128::MAX as u128 {
        return Err(TidePoolError::MathOverflow);
    }
    let delta = liquidity as i128;
    let net = if is_lower {
        match t.liquidity_net.checked_sub(delta) {
            Some(n) => n,
            None => {
                return Err(TidePoolError::MathOverflow);
            },
        }
    } else {
        match t.liquidity_net.checked_add(delta) {
            Some(n) => n,
            None => {
                return Err(TidePoolError::MathOverflow);
            },
        }
    };
    if t.liquidity_gross < liquidity {
        return Err(TidePoolError::MathOverflow);
    }
    let mut tick = Tick { liquidity_net: net, liquidity_gross: t.liquidity_gross - liquidity, ..t };
    if tick.liquidity_gross == 0 {
        tick.initialized = false;
    }
    Ok(tick)
}

/// What removing liquidity gives: the new state and the token amounts paid out.
pub open spec fn spec_remove_liquidity(
    pool: Pool,
    position: Position,
    tick_array_lower: TickArray,
    tick_array_upper: TickArray,
    liquidity_amount: u128,
    token_min_a: u64,
    token_min_b: u64,
) -> Result<LiquidityChange, TidePoolError> {
    let lower = position.tick_lower_index;
    let upper = position.tick_upper_index;
    if liquidity_amount == 0 || position.liquidity < liquidity_amount {
        Err(TidePoolError::ZeroLiquidity)
    } else if !(MIN_TICK <= lower <= MAX_TICK) || !(MIN_TICK <= upper <= MAX_TICK) {
        Err(TidePoolError::TickOutOfRange)
    } else {
        match spec_liquidity_amounts(pool.sqrt_price, sqrt_price_at_tick(lower as int) as u128,
            sqrt_price_at_tick(upper as int) as u128, liquidity_amount, false) {
            Err(e) => Err(e),
            Ok((amount_a, amount_b)) => {
                if amount_a < token_min_a || amount_b < token_min_b {
                    Err(TidePoolError::TokenMinNotMet)
                } else {
                    match (spec_tick_in(tick_array_lower, lower as int, pool.tick_spacing as int),
                        spec_tick_in(tick_array_upper, upper as int, pool.tick_spacing as int)) {
                        (Some(tl), Some(tu)) => {
                            let (fg_a, fg_b) = spec_fee_growth_inside_pair(pool, position, tl, tu);
                            let updated = spec_update_fees(position, fg_a, fg_b);
                            match spec_tick_after_remove(tl, liquidity_amount, true) {
                                Err(e) => Err(e),
                                Ok(new_lower) => match spec_tick_after_remove(tu, liquidity_amount, false) {
                                    Err(e) => Err(e),
                                    Ok(new_upper) => {
                                        let in_range = spec_in_range(pool.tick_current_index, lower, upper);
                                        let pool_liquidity = pool.liquidity - liquidity_amount;
                                        if in_range && !(0 <= pool_liquidity <= u128::MAX) {
                                            Err(TidePoolError::MathOverflow)
                                        } else {
                                            Ok(LiquidityChange {
                                                pool: Pool {
                                                    liquidity: if in_range { pool_liquidity as u128 } else { pool.liquidity },
                                                    ..pool
                                                },
                                                position: Position { liquidity: (updated.liquidity - liquidity_amount) as u128, ..updated },
                                                tick_lower: new_lower,
                                                tick_upper: new_upper,
                                                amount_a,
                                                amount_b,
                                            })
                                        }
                                    },
                                },
                            }
                        },
                        _ => Err(TidePoolError::InvalidTickArray),
                    }
                }
            },
        }
    }
}

/// Works out what removing `liquidity_amount` from a position gives, without changing
/// anything: the new state, the token amounts, and the slots of the two boundary ticks in
/// their arrays.
pub fn preview_remove_liquidity(
    pool: &Pool,
    position: &Position,
    tick_array_lower: &TickArray,
    tick_array_upper: &TickArray,
    liquidity_amount: u128,
    token_min_a: u64,
    token_min_b: u64,
) -> (r: Result<(LiquidityChange, usize, usize), TidePoolError>)
    requires
        pool.inv(),
        tick_array_lower.inv(),
        tick_array_upper.inv(),
    ensures
        match spec_remove_liquidity(*pool, *position, *tick_array_lower, *tick_array_upper, liquidity_amount, token_min_a, token_min_b) {
            Ok(c) => r matches Ok((c2, ol, ou)) && c2 == c
                && spec_tick_offset(tick_array_lower.start_tick_index as int, position.tick_lower_index as int, pool.tick_spacing as int) == Some(ol as int)
                && ol < tick_array_lower.ticks@.len()
                && spec_tick_offset(tick_array_upper.start_tick_index as int, position.tick_upper_index as int, pool.tick_spacing as int) == Some(ou as int)
                && ou < tick_array_upper.ticks@.len(),
            Err(e) => r == Err::<(LiquidityChange, usize, usize), TidePoolError>(e),
        },
{
    if liquidity_amount == 0 || position.liquidity < liquidity_amount {
        return Err(TidePoolError::ZeroLiquidity);
    }

    let tick_lower = position.tick_lower_index;
    let tick_upper = position.tick_upper_index;

    let sqrt_price_lower = match tick_to_sqrt_price(tick_lower) {
        Ok(p) => p,
        Err(e) => {
            return Err(e);
        },
    };
    let sqrt_price_upper = match tick_to_sqrt_price(tick_upper) {
        Ok(p) => p,
        Err(e) => {
            return Err(e);
        },
    };

    // Calculate token amounts to return
    let (amount_a, amount_b) = match liquidity_amounts(pool.sqrt_price, sqrt_price_lower, sqrt_price_upper, liquidity_amount, false) {
        Ok(t) => t,
        Err(e) => {
            return Err(e);
        },
    };

    // Check slippage
    if amount_a < token_min_a || amount_b < token_min_b {
        return Err(TidePoolError::TokenMinNotMet);
    }

    // Update fee growth for position
    let (lower_offset, tick_lower_data) = match locate_tick(tick_array_lower, tick_lower, pool.tick_spacing) {
        Some(t) => t,
        None => {
            return Err(TidePoolError::InvalidTickArray);
        },
    };
    let (upper_offset, tick_upper_data) = match locate_tick(tick_array_upper, tick_upper, pool.tick_spacing) {
        Some(t) => t,
        None => {
            return Err(TidePoolError::InvalidTickArray);
        },
    };

    let fee_growth_inside_a = calculate_fee_growth_inside(
        pool.tick_current_index,
        tick_lower,
        tick_upper,
        pool.fee_growth_global_a,
        tick_lower_data.fee_growth_outside_a,
        tick_upper_data.fee_growth_outside_a,
    );
    let fee_growth_inside_b = calculate_fee_growth_inside(
        pool.tick_current_index,
        tick_lower,
        tick_upper,
        pool.fee_growth_global_b,
        tick_lower_data.fee_growth_outside_b,
        tick_upper_data.fee_growth_outside_b,
    );

    // Update position
    let mut new_position = *position;
    new_position.update_fees(fee_growth_inside_a, fee_growth_inside_b);
    new_position.liquidity = new_position.liquidity - liquidity_amount;

    // Update tick liquidity (reverse of add)
    let new_lower = match tick_after_remove(tick_lower_data, liquidity_amount, true) {
        Ok(t) => t,
        Err(e) => {
            return Err(e);
        },
    };
    let new_upper = match tick_after_remove(tick_upper_data, liquidity_amount, false) {
        Ok(t) => t,
        Err(e) => {
            return Err(e);
        },
    };

    // Update pool liquidity
    let pool_liquidity = if pool.is_price_in_range(tick_lower, tick_upper) {
        proof {
            lemma_as_i128_min(liquidity_amount);
        }
        match add_liquidity_delta(pool.liquidity, -(liquidity_amount as i128)) {
            Ok(l) => l,
            Err(e) => {
                return Err(e);
            },
        }
    } else {
        pool.liquidity
    };

    Ok((
        LiquidityChange {
            pool: Pool { liquidity: pool_liquidity, ..*pool },
            position: new_position,
            tick_lower: new_lower,
            tick_upper: new_upper,
            amount_a,
            amount_b,
        },
        lower_offset,
        upper_offset,
    ))
}

/// Removes `liquidity_amount` from a position.
///
/// Updates the position (owed fees first), its two boundary ticks and the pool; the
/// result holds the token amounts paid out to the owner. On an error nothing changes.
pub fn handler(
    pool: &mut Pool,
    position: &mut Position,
    tick_array_lower: &mut TickArray,
    tick_array_upper: &mut TickArray,
    liquidity_amount: u128,
    token_min_a: u64,
    token_min_b: u64,
    pool_key: [u8; 32],
    position_key: [u8; 32],
    owner: [u8; 32],
) -> (r: Result<LiquidityRemoved, TidePoolError>)
    requires
        old(pool).inv(),
        old(tick_array_lower).inv(),
        old(tick_array_upper).inv(),
    ensures
        final(pool).inv(),
        match spec_remove_liquidity(*old(pool), *old(position), *old(tick_array_lower), *old(tick_array_upper),
            liquidity_amount, token_min_a, token_min_b) {
            Ok(c) => {
                &&& r == Ok::<LiquidityRemoved, TidePoolError>(LiquidityRemoved {
                    pool: pool_key,
                    position: position_key,
                    owner,
                    tick_lower: old(position).tick_lower_index,
                    tick_upper: old(position).tick_upper_index,
                    liquidity_delta: liquidity_amount,
                    amount_a: c.amount_a,
                    amount_b: c.amount_b,
                })
                &&& *final(pool) == c.pool
                &&& *final(position) == c.position
                &&& tick_replaced(*old(tick_array_lower), *final(tick_array_lower), old(position).tick_lower_index as int, old(pool).tick_spacing as int, c.tick_lower)
                &&& tick_replaced(*old(tick_array_upper), *final(tick_array_upper), old(position).tick_upper_index as int, old(pool).tick_spacing as int, c.tick_upper)
            },
            Err(e) => {
                &&& r == Err::<LiquidityRemoved, TidePoolError>(e)
                &&& *final(pool) == *old(pool)
                &&& *final(position) == *old(position)
                &&& *final(tick_array_lower) == *old(tick_array_lower)
                &&& *final(tick_array_upper) == *old(tick_array_upper)
            },
        },
        // the owner receives at least the minima
        r matches Ok(event) ==> event.amount_a >= token_min_a && event.amount_b >= token_min_b,
        r matches Ok(_) ==> final(position).liquidity == old(position).liquidity - liquidity_amount,
{
    match preview_remove_liquidity(pool, position, tick_array_lower, tick_array_upper, liquidity_amount, token_min_a, token_min_b) {
        Err(e) => Err(e),
        Ok((c, lower_offset, upper_offset)) => {
            let tick_lower = position.tick_lower_index;
            let tick_upper = position.tick_upper_index;
            *pool = c.pool;
            *position = c.position;
            tick_array_lower.ticks.set(lower_offset, c.tick_lower);
            tick_array_upper.ticks.set(upper_offset, c.tick_upper);
            Ok(
                LiquidityRemoved {
                    pool: pool_key,
                    position: position_key,
                    owner,
                    tick_lower,
                    tick_upper,
                    liquidity_delta: liquidity_amount,
                    amount_a: c.amount_a,
                    amount_b: c.amount_b,
                },
            )
        },
    }
}

/// Removing the liquidity just added succeeds (with no minimum on either token), gives back
/// the position's, the pool's and the boundary ticks' liquidity as they were before the
/// addition, and pays out no more of either token than the addition took.
pub proof fn lemma_add_then_remove_restores_liquidity(
    pool: Pool,
    position: Position,
    tick_array_lower: TickArray,
    tick_array_upper: TickArray,
    liquidity_amount: u128,
    token_max_a: u64,
    token_max_b: u64,
    added: LiquidityChange,
    lower_after_add: TickArray,
    upper_after_add: TickArray,
)
    requires
        spec_add_liquidity(pool, position, tick_array_lower, tick_array_upper, liquidity_amount, token_max_a, token_max_b) == Ok::<LiquidityChange, TidePoolError>(added),
        tick_replaced(tick_array_lower, lower_after_add, position.tick_lower_index as int, pool.tick_spacing as int, added.tick_lower),
        tick_replaced(tick_array_upper, upper_after_add, position.tick_upper_index as int, pool.tick_spacing as int, added.tick_upper),
    ensures
        spec_remove_liquidity(added.pool, added.position, lower_after_add, upper_after_add, liquidity_amount, 0, 0) matches Ok(removed) && {
            &&& removed.position.liquidity == position.liquidity
            &&& removed.pool.liquidity == pool.liquidity
            &&& spec_tick_in(tick_array_lower, position.tick_lower_index as int, pool.tick_spacing as int) matches Some(t) && (
                removed.tick_lower.liquidity_net == t.liquidity_net && removed.tick_lower.liquidity_gross == t.liquidity_gross)
            &&& spec_tick_in(tick_array_upper, position.tick_upper_index as int, pool.tick_spacing as int) matches Some(t) && (
                removed.tick_upper.liquidity_net == t.liquidity_net && removed.tick_upper.liquidity_gross == t.liquidity_gross)
            &&& removed.amount_a <= added.amount_a
            &&& removed.amount_b <= added.amount_b
        },
{
    let pl = sqrt_price_at_tick(position.tick_lower_index as int) as u128;
    let pu = sqrt_price_at_tick(position.tick_upper_index as int) as u128;
    let pc = pool.sqrt_price;
    lemma_amount_a_rounding(pl, pu, liquidity_amount);
    lemma_amount_b_rounding(pl, pu, liquidity_amount);
    lemma_amount_a_rounding(pc, pu, liquidity_amount);
    lemma_amount_b_rounding(pl, pc, liquidity_amount);
    assert(spec_tick_in(lower_after_add, position.tick_lower_index as int, pool.tick_spacing as int) == Some(added.tick_lower));
    assert(spec_tick_in(upper_after_add, position.tick_upper_index as int, pool.tick_spacing as int) == Some(added.tick_upper));
}

/// Removing liquidity from a position over a proper range pays out exactly the tokens it
/// stands for at the pool's price over that range, rounded down.
pub proof fn lemma_remove_liquidity_pays_what_liquidity_stands_for(
    pool: Pool,
    position: Position,
    tick_array_lower: TickArray,
    tick_array_upper: TickArray,
    liquidity_amount: u128,
    token_min_a: u64,
    token_min_b: u64,
)
    ensures
        position.tick_lower_index < position.tick_upper_index ==> (spec_remove_liquidity(pool, position, tick_array_lower,
            tick_array_upper, liquidity_amount, token_min_a, token_min_b) matches Ok(c) ==> amounts_stand_for_liquidity(
            pool.sqrt_price,
            sqrt_price_at_tick(position.tick_lower_index as int) as u128,
            sqrt_price_at_tick(position.tick_upper_index as int) as u128,
            liquidity_amount,
            false,
            c.amount_a,
            c.amount_b,
        )),
{
    let lower = position.tick_lower_index as int;
    let upper = position.tick_upper_index as int;
    if MIN_TICK <= lower < upper <= MAX_TICK {
        crate::clmm::math::tick_math::lemma_sqrt_price_strictly_increasing(lower, upper);
        crate::clmm::math::tick_math::lemma_sqrt_price_in_bounds(lower);
        crate::clmm::math::tick_math::lemma_sqrt_price_in_bounds(upper);
        let pl = sqrt_price_at_tick(lower) as u128;
        let pu = sqrt_price_at_tick(upper) as u128;
        lemma_liquidity_amounts_stand_for_liquidity(pool.sqrt_price, pl, pu, liquidity_amount, false);
        if let Ok(c) = spec_remove_liquidity(pool, position, tick_array_lower, tick_array_upper, liquidity_amount, token_min_a, token_min_b) {
            let r = spec_liquidity_amounts(pool.sqrt_price, pl, pu, liquidity_amount, false);
            assert(r matches Ok((a, b)) && c.amount_a == a && c.amount_b == b);
        }
    }
}

} // verus!
