use vstd::prelude::*;

use crate::clmm::errors::TidePoolError;
use crate::clmm::events::LiquidityAdded;
use crate::keys::same_key;
use crate::clmm::math::liquidity_math::{add_liquidity_delta, calculate_fee_growth_inside, spec_fee_growth_inside};
use crate::clmm::math::sqrt_price_math::{
    div_round,
    get_amount_a_delta,
    get_amount_b_delta,
    spec_amount_a_delta,
    spec_amount_b_delta,
    spec_liquidity_for_amounts,
    spec_liquidity_from_a,
    spec_liquidity_from_b,
};
use crate::clmm::math::u256::pow64;
use vstd::arithmetic::div_mod::{lemma_fundamental_div_mod, lemma_mod_pos_bound};
use crate::clmm::math::tick_math::{sqrt_price_at_tick, tick_to_sqrt_price};
use crate::clmm::state::pool::{spec_in_range, Pool};
use crate::clmm::state::position::{spec_update_fees, Position};
use crate::clmm::state::tick::{spec_tick_offset, Tick, TickArray, MAX_TICK, MIN_TICK};

verus! {

/// Addresses of the accounts that adding or removing liquidity is given, as far as the
/// pool checks them.
#[derive(Debug, Clone, Copy, PartialEq, Eq)]
pub struct ModifyLiquidity {
    /// The pool account
    pub pool: [u8; 32],
    /// The pool's token A account
    pub token_vault_a: [u8; 32],
    /// The pool's token B account
    pub token_vault_b: [u8; 32],
    /// Owner recorded in the token A account the owner pays from or is paid to
    pub token_owner_account_a_owner: [u8; 32],
    /// Owner recorded in the token B account the owner pays from or is paid to
    pub token_owner_account_b_owner: [u8; 32],
    /// The signer
    pub owner: [u8; 32],
}

/// The pool's checks on the accounts that modify a position's liquidity, in order: only
/// the position's owner may sign, both tick arrays must belong to the pool, and the
/// token accounts must be the pool's and the owner's.
pub open spec fn spec_check_modify_liquidity_accounts(
    accounts: ModifyLiquidity,
    pool: Pool,
    position: Position,
    tick_array_lower: TickArray,
    tick_array_upper: TickArray,
) -> Result<(), TidePoolError> {
    if position.owner != accounts.owner {
        Err(TidePoolError::Unauthorized)
    } else if tick_array_lower.pool != accounts.pool || tick_array_upper.pool != accounts.pool {
        Err(TidePoolError::InvalidTickArray)
    } else if accounts.token_vault_a != pool.token_vault_a || accounts.token_vault_b != pool.token_vault_b
        || accounts.token_owner_account_a_owner != accounts.owner || accounts.token_owner_account_b_owner
        != accounts.owner {
        Err(TidePoolError::Unauthorized)
    } else {
        Ok(())
    }
}

impl ModifyLiquidity {
    /// Checks that these accounts may add liquidity to or remove it from `position`.
    pub fn validate(
        &self,
        pool: &Pool,
        position: &Position,
        tick_array_lower: &TickArray,
        tick_array_upper: &TickArray,
    ) -> (r: Result<(), TidePoolError>)
        ensures
            r == spec_check_modify_liquidity_accounts(*self, *pool, *position, *tick_array_lower, *tick_array_upper),
            r is Ok ==> position.owner == self.owner,
    {
        if !same_key(&position.owner, &self.owner) {
            return Err(TidePoolError::Unauthorized);
        }
        if !same_key(&tick_array_lower.pool, &self.pool) {
            return Err(TidePoolError::InvalidTickArray);
        }
        if !same_key(&tick_array_upper.pool, &self.pool) {
            return Err(TidePoolError::InvalidTickArray);
        }
        if !same_key(&self.token_vault_a, &pool.token_vault_a) {
            return Err(TidePoolError::Unauthorized);
        }
        if !same_key(&self.token_vault_b, &pool.token_vault_b) {
            return Err(TidePoolError::Unauthorized);
        }
        if !same_key(&self.token_owner_account_a_owner, &self.owner) {
            return Err(TidePoolError::Unauthorized);
        }
        if !same_key(&self.token_owner_account_b_owner, &self.owner) {
            return Err(TidePoolError::Unauthorized);
        }
        Ok(())
    }
}

/// Token amounts that `liquidity` stands for over `[lower, upper)` at the current price:
/// only A below the range, only B above it, both inside it.
pub open spec fn spec_liquidity_amounts(
    sqrt_price_current: u128,
    sqrt_price_lower: u128,
    sqrt_price_upper: u128,
    liquidity: u128,
    round_up: bool,
) -> Result<(u64, u64), TidePoolError> {
    if sqrt_price_current < sqrt_price_lower {
        match spec_amount_a_delta(sqrt_price_lower, sqrt_price_upper, liquidity, round_up) {
            Ok(a) => Ok((a, 0u64)),
            Err(e) => Err(e),
        }
    } else if sqrt_price_current >= sqrt_price_upper {
        match spec_amount_b_delta(sqrt_price_lower, sqrt_price_upper, liquidity, round_up) {
            Ok(b) => Ok((0u64, b)),
            Err(e) => Err(e),
        }
    } else {
        match spec_amount_a_delta(sqrt_price_current, sqrt_price_upper, liquidity, round_up) {
            Err(e) => Err(e),
            Ok(a) => match spec_amount_b_delta(sqrt_price_lower, sqrt_price_current, liquidity, round_up) {
                Ok(b) => Ok((a, b)),
                Err(e) => Err(e),
            },
        }
    }
}

/// Exec twin of `spec_liquidity_amounts`.
pub fn liquidity_amounts(
    sqrt_price_current: u128,
    sqrt_price_lower: u128,
    sqrt_price_upper: u128,
    liquidity: u128,
    round_up: bool,
) -> (r: Result<(u64, u64), TidePoolError>)
    ensures
        r == spec_liquidity_amounts(sqrt_price_current, sqrt_price_lower, sqrt_price_upper, liquidity, round_up),
{
    if sqrt_price_current < sqrt_price_lower {
        // Current price below range: only token A needed
        match get_amount_a_delta(sqrt_price_lower, sqrt_price_upper, liquidity, round_up) {
            Ok(a) => Ok((a, 0u64)),
            Err(e) => Err(e),
        }
    } else if sqrt_price_current >= sqrt_price_upper {
        // Current price above range: only token B needed
        match get_amount_b_delta(sqrt_price_lower, sqrt_price_upper, liquidity, round_up) {
            Ok(b) => Ok((0u64, b)),
            Err(e) => Err(e),
        }
    } else {
        // Current price in range: both tokens needed
        let a = match get_amount_a_delta(sqrt_price_current, sqrt_price_upper, liquidity, round_up) {
            Ok(a) => a,
            Err(e) => {
                return Err(e);
            },
        };
        match get_amount_b_delta(sqrt_price_lower, sqrt_price_current, liquidity, round_up) {
            Ok(b) => Ok((a, b)),
            Err(e) => Err(e),
        }
    }
}

/// The tick stored in `ta` for `tick_index`, if the array covers it and holds the slot.
pub open spec fn spec_tick_in(ta: TickArray, tick_index: int, tick_spacing: int) -> Option<Tick> {
    match spec_tick_offset(ta.start_tick_index as int, tick_index, tick_spacing) {
        Some(o) => if o < ta.ticks@.len() { Some(ta.ticks@[o]) } else { None },
        None => None,
    }
}

/// `new_ta` is `old_ta` with the tick for `tick_index` replaced by `t`.
pub open spec fn tick_replaced(old_ta: TickArray, new_ta: TickArray, tick_index: int, tick_spacing: int, t: Tick) -> bool {
    &&& spec_tick_offset(old_ta.start_tick_index as int, tick_index, tick_spacing) matches Some(o)
    &&& 0 <= o < old_ta.ticks@.len()
    &&& new_ta.ticks@ == old_ta.ticks@.update(o, t)
    &&& new_ta.start_tick_index == old_ta.start_tick_index
    &&& new_ta.pool == old_ta.pool
    &&& new_ta.bump == old_ta.bump
}

/// The effect of a liquidity change: new pool, position and boundary ticks, and the
/// token amounts that move.
#[derive(Debug, Clone, Copy, PartialEq, Eq)]
pub struct LiquidityChange {
    pub pool: Pool,
    pub position: Position,
    pub tick_lower: Tick,
    pub tick_upper: Tick,
    pub amount_a: u64,
    pub amount_b: u64,
}

/// A boundary tick after `liquidity` was added to a position that starts (`is_lower`) or
/// ends at it; a tick initialized here takes the global fee growth as its outside growth
/// when the current tick is at or above it. A liquidity beyond `i128::MAX` cannot be a net
/// change and is refused.
pub open spec fn spec_tick_after_add(t: Tick, liquidity: u128, is_lower: bool, tick_index: i32, pool: Pool) -> Result<Tick, TidePoolError> {
    let net = if is_lower { t.liquidity_net + liquidity } else { t.liquidity_net - liquidity };
    if liquidity > i128::MAX || !(i128::MIN <= net <= i128::MAX) || t.liquidity_gross + liquidity > u128::MAX {
        Err(TidePoolError::MathOverflow)
    } else {
        let fresh_outside = !t.initialized && pool.tick_current_index >= tick_index;
        Ok(Tick {
            initialized: true,
            liquidity_net: net as i128,
            liquidity_gross: (t.liquidity_gross + liquidity) as u128,
            fee_growth_outside_a: if fresh_outside { pool.fee_growth_global_a } else { t.fee_growth_outside_a },
            fee_growth_outside_b: if fresh_outside { pool.fee_growth_global_b } else { t.fee_growth_outside_b },
        })
    }
}

/// Exec twin of `spec_tick_after_add`.
pub fn tick_after_add(t: Tick, liquidity: u128, is_lower: bool, tick_index: i32, pool: &Pool) -> (r: Result<Tick, TidePoolError>)
    ensures
        r == spec_tick_after_add(t, liquidity, is_lower, tick_index, *pool),
{
    if liquidity > i128::MAX as u128 {
        return Err(TidePoolError::MathOverflow);
    }
    let delta = liquidity as i128;
    let net = if is_lower {
        match t.liquidity_net.checked_add(delta) {
            Some(n) => n,
            None => {
                return Err(TidePoolError::MathOverflow);
            },
        }
    } else {
        match t.liquidity_net.checked_sub(delta) {
            Some(n) => n,
            None => {
                return Err(TidePoolError::MathOverflow);
            },
        }
    };
    let gross = match t.liquidity_gross.checked_add(liquidity) {
        Some(g) => g,
        None => {
            return Err(TidePoolError::MathOverflow);
        },
    };
    let mut tick = Tick { liquidity_net: net, liquidity_gross: gross, ..t };
    if !tick.initialized {
        tick.initialized = true;
        // Initialize fee growth outside for the tick
        if pool.tick_current_index >= tick_index {
            tick.fee_growth_outside_a = pool.fee_growth_global_a;
            tick.fee_growth_outside_b = pool.fee_growth_global_b;
        }
    }
    Ok(tick)
}

/// The slot of `tick_index` in `ta` and the tick it holds.
pub fn locate_tick(ta: &TickArray, tick_index: i32, tick_spacing: u16) -> (r: Option<(usize, Tick)>)
    requires
        tick_index >= ta.start_tick_index ==> tick_spacing > 0,
        tick_index - ta.start_tick_index <= i32::MAX,
    ensures
        r matches Some((o, t)) ==> spec_tick_offset(ta.start_tick_index as int, tick_index as int, tick_spacing as int) == Some(o as int)
            && o < ta.ticks@.len() && t == ta.ticks@[o as int] && spec_tick_in(*ta, tick_index as int, tick_spacing as int) == Some(t),
        r is None ==> spec_tick_in(*ta, tick_index as int, tick_spacing as int) is None,
{
    match ta.get_tick_offset(tick_index, tick_spacing) {
        Some(o) => {
            if o < ta.ticks.len() {
                Some((o, ta.ticks[o]))
            } else {
                None
            }
        },
        None => None,
    }
}

/// Fee growth inside the position's range, for token A and token B.
pub open spec fn spec_fee_growth_inside_pair(pool: Pool, position: Position, lower: Tick, upper: Tick) -> (u128, u128) {
    (
        spec_fee_growth_inside(pool.tick_current_index, position.tick_lower_index, position.tick_upper_index,
            pool.fee_growth_global_a, lower.fee_growth_outside_a, upper.fee_growth_outside_a) as u128,
        spec_fee_growth_inside(pool.tick_current_index, position.tick_lower_index, position.tick_upper_index,
            pool.fee_growth_global_b, lower.fee_growth_outside_b, upper.fee_growth_outside_b) as u128,
    )
}

/// What adding liquidity gives: the new state and the token amounts the owner pays in.
pub open spec fn spec_add_liquidity(
    pool: Pool,
    position: Position,
    tick_array_lower: TickArray,
    tick_array_upper: TickArray,
    liquidity_amount: u128,
    token_max_a: u64,
    token_max_b: u64,
) -> Result<LiquidityChange, TidePoolError> {
    let lower = position.tick_lower_index;
    let upper = position.tick_upper_index;
    if liquidity_amount == 0 {
        Err(TidePoolError::ZeroLiquidity)
    } else if pool.paused {
        Err(TidePoolError::PoolPaused)
    } else if !(MIN_TICK <= lower <= MAX_TICK) || !(MIN_TICK <= upper <= MAX_TICK) {
        Err(TidePoolError::TickOutOfRange)
    } else {
        match spec_liquidity_amounts(pool.sqrt_price, sqrt_price_at_tick(lower as int) as u128,
            sqrt_price_at_tick(upper as int) as u128, liquidity_amount, true) {
            Err(e) => Err(e),
            Ok((amount_a, amount_b)) => {
                if amount_a > token_max_a || amount_b > token_max_b {
                    Err(TidePoolError::TokenMaxExceeded)
                } else {
                    match (spec_tick_in(tick_array_lower, lower as int, pool.tick_spacing as int),
                        spec_tick_in(tick_array_upper, upper as int, pool.tick_spacing as int)) {
                        (Some(tl), Some(tu)) => {
                            let (fg_a, fg_b) = spec_fee_growth_inside_pair(pool, position, tl, tu);
                            let updated = spec_update_fees(position, fg_a, fg_b);
                            if updated.liquidity + liquidity_amount > u128::MAX {
                                Err(TidePoolError::MathOverflow)
                            } else {
                                match spec_tick_after_add(tl, liquidity_amount, true, lower, pool) {
                                    Err(e) => Err(e),
                                    Ok(new_lower) => match spec_tick_after_add(tu, liquidity_amount, false, upper, pool) {
                                        Err(e) => Err(e),
                                        Ok(new_upper) => {
                                            let in_range = spec_in_range(pool.tick_current_index, lower, upper);
                                            let pool_liquidity = pool.liquidity + liquidity_amount;
                                            if in_range && !(0 <= pool_liquidity <= u128::MAX) {
                                                Err(TidePoolError::MathOverflow)
                                            } else if pool.total_liquidity_provided + liquidity_amount > u128::MAX {
                                                Err(TidePoolError::MathOverflow)
                                            } else {
                                                Ok(LiquidityChange {
                                                    pool: Pool {
                                                        liquidity: if in_range { pool_liquidity as u128 } else { pool.liquidity },
                                                        total_liquidity_provided: (pool.total_liquidity_provided + liquidity_amount) as u128,
                                                        ..pool
                                                    },
                                                    position: Position { liquidity: (updated.liquidity + liquidity_amount) as u128, ..updated },
                                                    tick_lower: new_lower,
                                                    tick_upper: new_upper,
                                                    amount_a,
                                                    amount_b,
                                                })
                                            }
                                        },
                                    },
                                }
                            }
                        },
                        _ => Err(TidePoolError::InvalidTickArray),
                    }
                }
            },
        }
    }
}

/// Works out what adding `liquidity_amount` to a position gives, without changing
/// anything: the new state, the token amounts, and the slots of the two boundary ticks in
/// their arrays.
pub fn preview_add_liquidity(
    pool: &Pool,
    position: &Position,
    tick_array_lower: &TickArray,
    tick_array_upper: &TickArray,
    liquidity_amount: u128,
    token_max_a: u64,
    token_max_b: u64,
) -> (r: Result<(LiquidityChange, usize, usize), TidePoolError>)
    requires
        pool.inv(),
        tick_array_lower.inv(),
        tick_array_upper.inv(),
    ensures
        match spec_add_liquidity(*pool, *position, *tick_array_lower, *tick_array_upper, liquidity_amount, token_max_a, token_max_b) {
            Ok(c) => r matches Ok((c2, ol, ou)) && c2 == c
                && spec_tick_offset(tick_array_lower.start_tick_index as int, position.tick_lower_index as int, pool.tick_spacing as int) == Some(ol as int)
                && ol < tick_array_lower.ticks@.len()
                && spec_tick_offset(tick_array_upper.start_tick_index as int, position.tick_upper_index as int, pool.tick_spacing as int) == Some(ou as int)
                && ou < tick_array_upper.ticks@.len(),
            Err(e) => r == Err::<(LiquidityChange, usize, usize), TidePoolError>(e),
        },
{
    if liquidity_amount == 0 {
        return Err(TidePoolError::ZeroLiquidity);
    }
    if pool.paused {
        return Err(TidePoolError::PoolPaused);
    }

    let tick_lower = position.tick_lower_index;
    let tick_upper = position.tick_upper_index;

    let sqrt_price_lower = match tick_to_sqrt_price(tick_lower) {
        Ok(p) => p,
        Err(e) => {
            return Err(e);
        },
    };
    let sqrt_price_upper = match tick_to_sqrt_price(tick_upper) {
        Ok(p) => p,
        Err(e) => {
            return Err(e);
        },
    };

    // Calculate required token amounts based on current price vs position range
    let (amount_a, amount_b) = match liquidity_amounts(pool.sqrt_price, sqrt_price_lower, sqrt_price_upper, liquidity_amount, true) {
        Ok(t) => t,
        Err(e) => {
            return Err(e);
        },
    };

    // Check slippage
    if amount_a > token_max_a || amount_b > token_max_b {
        return Err(TidePoolError::TokenMaxExceeded);
    }

    // Update fee growth for position before modifying liquidity
    let (lower_offset, tick_lower_data) = match locate_tick(tick_array_lower, tick_lower, pool.tick_spacing) {
        Some(t) => t,
        None => {
            return Err(TidePoolError::InvalidTickArray);
        },
    };
    let (upper_offset, tick_upper_data) = match locate_tick(tick_array_upper, tick_upper, pool.tick_spacing) {
        Some(t) => t,
        None => {
            return Err(TidePoolError::InvalidTickArray);
        },
    };

    let fee_growth_inside_a = calculate_fee_growth_inside(
        pool.tick_current_index,
        tick_lower,
        tick_upper,
        pool.fee_growth_global_a,
        tick_lower_data.fee_growth_outside_a,
        tick_upper_data.fee_growth_outside_a,
    );
    let fee_growth_inside_b = calculate_fee_growth_inside(
        pool.tick_current_index,
        tick_lower,
        tick_upper,
        pool.fee_growth_global_b,
        tick_lower_data.fee_growth_outside_b,
        tick_upper_data.fee_growth_outside_b,
    );

    // Update position fees
    let mut new_position = *position;
    new_position.update_fees(fee_growth_inside_a, fee_growth_inside_b);
    if new_position.liquidity > u128::MAX - liquidity_amount {
        return Err(TidePoolError::MathOverflow);
    }
    new_position.liquidity = new_position.liquidity + liquidity_amount;

    // Update tick liquidity
    let new_lower = match tick_after_add(tick_lower_data, liquidity_amount, true, tick_lower, pool) {
        Ok(t) => t,
        Err(e) => {
            return Err(e);
        },
    };
    let new_upper = match tick_after_add(tick_upper_data, liquidity_amount, false, tick_upper, pool) {
        Ok(t) => t,
        Err(e) => {
            return Err(e);
        },
    };

    // Update pool liquidity if position is in range
    let pool_liquidity = if pool.is_price_in_range(tick_lower, tick_upper) {
        proof {
            crate::clmm::math::liquidity_math::lemma_as_i128_min(liquidity_amount);
        }
        match add_liquidity_delta(pool.liquidity, liquidity_amount as i128) {
            Ok(l) => l,
            Err(e) => {
                return Err(e);
            },
        }
    } else {
        pool.liquidity
    };
    if pool.total_liquidity_provided > u128::MAX - liquidity_amount {
        return Err(TidePoolError::MathOverflow);
    }

    Ok((
        LiquidityChange {
            pool: Pool {
                liquidity: pool_liquidity,
                total_liquidity_provided: pool.total_liquidity_provided + liquidity_amount,
                ..*pool
            },
            position: new_position,
            tick_lower: new_lower,
            tick_upper: new_upper,
            amount_a,
            amount_b,
        },
        lower_offset,
        upper_offset,
    ))
}

/// Adds `liquidity_amount` to a position.
///
/// Updates the position (owed fees first), its two boundary ticks and the pool; the
/// result holds the token amounts the owner pays in. On an error nothing changes.
pub fn handler(
    pool: &mut Pool,
    position: &mut Position,
    tick_array_lower: &mut TickArray,
    tick_array_upper: &mut TickArray,
    liquidity_amount: u128,
    token_max_a: u64,
    token_max_b: u64,
    pool_key: [u8; 32],
    position_key: [u8; 32],
    owner: [u8; 32],
) -> (r: Result<LiquidityAdded, TidePoolError>)
    requires
        old(pool).inv(),
        old(tick_array_lower).inv(),
        old(tick_array_upper).inv(),
    ensures
        final(pool).inv(),
        match spec_add_liquidity(*old(pool), *old(position), *old(tick_array_lower), *old(tick_array_upper),
            liquidity_amount, token_max_a, token_max_b) {
            Ok(c) => {
                &&& r == Ok::<LiquidityAdded, TidePoolError>(LiquidityAdded {
                    pool: pool_key,
                    position: position_key,
                    owner,
                    tick_lower: old(position).tick_lower_index,
                    tick_upper: old(position).tick_upper_index,
                    liquidity_delta: liquidity_amount,
                    amount_a: c.amount_a,
                    amount_b: c.amount_b,
                })
                &&& *final(pool) == c.pool
                &&& *final(position) == c.position
                &&& tick_replaced(*old(tick_array_lower), *final(tick_array_lower), old(position).tick_lower_index as int, old(pool).tick_spacing as int, c.tick_lower)
                &&& tick_replaced(*old(tick_array_upper), *final(tick_array_upper), old(position).tick_upper_index as int, old(pool).tick_spacing as int, c.tick_upper)
            },
            Err(e) => {
                &&& r == Err::<LiquidityAdded, TidePoolError>(e)
                &&& *final(pool) == *old(pool)
                &&& *final(position) == *old(position)
                &&& *final(tick_array_lower) == *old(tick_array_lower)
                &&& *final(tick_array_upper) == *old(tick_array_upper)
            },
        },
        // the owner never pays more than the maxima
        r matches Ok(event) ==> event.amount_a <= token_max_a && event.amount_b <= token_max_b,
        r matches Ok(_) ==> final(position).liquidity == old(position).liquidity + liquidity_amount,
{
    match preview_add_liquidity(pool, position, tick_array_lower, tick_array_upper, liquidity_amount, token_max_a, token_max_b) {
        Err(e) => Err(e),
        Ok((c, lower_offset, upper_offset)) => {
            let tick_lower = position.tick_lower_index;
            let tick_upper = position.tick_upper_index;
            *pool = c.pool;
            *position = c.position;
            tick_array_lower.ticks.set(lower_offset, c.tick_lower);
            tick_array_upper.ticks.set(upper_offset, c.tick_upper);
            Ok(
                LiquidityAdded {
                    pool: pool_key,
                    position: position_key,
                    owner,
                    tick_lower,
                    tick_upper,
                    liquidity_delta: liquidity_amount,
                    amount_a: c.amount_a,
                    amount_b: c.amount_b,
                },
            )
        },
    }
}

/// `n / d`, rounded up on request, is at most `m` when `n <= m * d`.
proof fn lemma_rounded_quotient_at_most(n: int, d: int, m: int, round_up: bool)
    requires
        d > 0,
        n >= 0,
        n <= m * d,
    ensures
        div_round(n, d, round_up) <= m,
{
    lemma_fundamental_div_mod(n, d);
    lemma_mod_pos_bound(n, d);
    let q = n / d;
    let r = n % d;
    assert(q <= m) by (nonlinear_arith)
        requires n == d * q + r, 0 <= r < d, n <= m * d, d > 0;
    if r != 0 {
        assert(q < m) by (nonlinear_arith)
            requires n == d * q + r, 0 < r < d, n <= m * d, d > 0;
    }
}

/// Liquidity within what `amount` of token A funds needs no more than `amount` of it.
proof fn lemma_liquidity_from_a_fits(amount: u64, lower: u128, upper: u128, liquidity: u128)
    requires
        0 < lower < upper,
        liquidity <= spec_liquidity_from_a(amount, lower, upper),
    ensures
        spec_amount_a_delta(lower, upper, liquidity, true) matches Ok(x) ==> x <= amount,
{
    if liquidity > 0 {
        let x = amount * lower * upper;
        let y = (upper - lower) * pow64();
        assert(y > 0) by (nonlinear_arith)
            requires y == (upper - lower) * pow64(), upper > lower;
        assert(x >= 0) by (nonlinear_arith)
            requires x == amount * lower * upper, amount >= 0, lower > 0, upper > 0;
        lemma_fundamental_div_mod(x, y);
        lemma_mod_pos_bound(x, y);
        let n = liquidity * (upper - lower) * pow64();
        let den = lower * upper;
        assert(n <= amount * den) by (nonlinear_arith)
            requires
                liquidity <= x / y,
                x == y * (x / y) + x % y,
                x % y >= 0,
                y > 0,
                liquidity >= 0,
                n == liquidity * (upper - lower) * pow64(),
                y == (upper - lower) * pow64(),
                x == amount * lower * upper,
                den == lower * upper;
        assert(den > 0) by (nonlinear_arith)
            requires den == lower * upper, lower > 0, upper > 0;
        assert(n >= 0) by (nonlinear_arith)
            requires n == liquidity * (upper - lower) * pow64(), liquidity >= 0, upper > lower;
        lemma_rounded_quotient_at_most(n, den, amount as int, true);
    }
}

/// Liquidity within what `amount` of token B funds needs no more than `amount` of it.
proof fn lemma_liquidity_from_b_fits(amount: u64, lower: u128, upper: u128, liquidity: u128)
    requires
        lower < upper,
        liquidity <= spec_liquidity_from_b(amount, lower, upper),
    ensures
        spec_amount_b_delta(lower, upper, liquidity, true) matches Ok(x) ==> x <= amount,
{
    if liquidity > 0 {
        let x = amount * pow64();
        let y = (upper - lower) as int;
        lemma_fundamental_div_mod(x, y);
        lemma_mod_pos_bound(x, y);
        let n = liquidity * (upper - lower);
        assert(n <= amount * pow64()) by (nonlinear_arith)
            requires
                liquidity <= x / y,
                x == y * (x / y) + x % y,
                x % y >= 0,
                y > 0,
                liquidity >= 0,
                n == liquidity * (upper - lower),
                y == upper - lower,
                x == amount * pow64();
        assert(n >= 0) by (nonlinear_arith)
            requires n == liquidity * (upper - lower), liquidity >= 0, upper > lower;
        lemma_rounded_quotient_at_most(n, pow64(), amount as int, true);
    }
}

/// The liquidity that two amounts fund costs no more than those amounts when it is added:
/// the token amounts `add_liquidity` charges for it (rounded up) stay within them.
pub proof fn lemma_liquidity_for_amounts_fits(current: u128, lower: u128, upper: u128, amount_a: u64, amount_b: u64)
    requires
        0 < lower < upper,
    ensures
        spec_liquidity_amounts(current, lower, upper, spec_liquidity_for_amounts(current, lower, upper, amount_a, amount_b) as u128, true)
            matches Ok((x, y)) ==> x <= amount_a && y <= amount_b,
{
    let l = spec_liquidity_for_amounts(current, lower, upper, amount_a, amount_b);
    let fa = spec_liquidity_from_a(amount_a, lower, upper);
    let fb = spec_liquidity_from_b(amount_b, lower, upper);
    vstd::arithmetic::div_mod::lemma_div_pos_is_pos(amount_b * pow64(), (upper - lower) as int);
    if current <= lower {
        assert(amount_a * lower * upper >= 0) by (nonlinear_arith)
            requires amount_a >= 0, lower > 0, upper > 0;
        vstd::arithmetic::div_mod::lemma_div_pos_is_pos(amount_a * lower * upper, (upper - lower) * pow64());
        lemma_liquidity_from_a_fits(amount_a, lower, upper, l as u128);
    } else if current >= upper {
        lemma_liquidity_from_b_fits(amount_b, lower, upper, l as u128);
    } else {
        let ga = spec_liquidity_from_a(amount_a, current, upper);
        let gb = spec_liquidity_from_b(amount_b, lower, current);
        assert(amount_a * current * upper >= 0) by (nonlinear_arith)
            requires amount_a >= 0, current > 0, upper > 0;
        vstd::arithmetic::div_mod::lemma_div_pos_is_pos(amount_a * current * upper, (upper - current) * pow64());
        vstd::arithmetic::div_mod::lemma_div_pos_is_pos(amount_b * pow64(), (current - lower) as int);
        lemma_liquidity_from_a_fits(amount_a, current, upper, l as u128);
        lemma_liquidity_from_b_fits(amount_b, lower, current, l as u128);
    }
}

/// `q` is `n / d` rounded down, or (on request) up, over the rationals: for `d > 0`.
pub open spec fn is_rounded_quotient(q: int, n: int, d: int, round_up: bool) -> bool {
    if round_up {
        (q - 1) * d < n && n <= q * d
    } else {
        q * d <= n && n < (q + 1) * d
    }
}

/// `(amount_a, amount_b)` are the tokens `liquidity` stands for over `[lower, upper)` at the
/// current price: token A for the part of the range above the price,
/// `L * (upper - m) * 2^64 / (m * upper)` with `m` the larger of the price and `lower`, and
/// token B for the part below it, `L * (n - lower) / 2^64` with `n` the smaller of the price
/// and `upper`; each rounded as asked, and zero when that part is empty.
pub open spec fn amounts_stand_for_liquidity(
    sqrt_price_current: u128,
    sqrt_price_lower: u128,
    sqrt_price_upper: u128,
    liquidity: u128,
    round_up: bool,
    amount_a: u64,
    amount_b: u64,
) -> bool {
    let m: int = if sqrt_price_current > sqrt_price_lower { sqrt_price_current as int } else { sqrt_price_lower as int };
    let n: int = if sqrt_price_current < sqrt_price_upper { sqrt_price_current as int } else { sqrt_price_upper as int };
    &&& if sqrt_price_current < sqrt_price_upper {
        is_rounded_quotient(amount_a as int, liquidity * (sqrt_price_upper - m) * pow64(), m * sqrt_price_upper, round_up)
    } else {
        amount_a == 0
    }
    &&& if sqrt_price_current > sqrt_price_lower {
        is_rounded_quotient(amount_b as int, liquidity * (n - sqrt_price_lower), pow64(), round_up)
    } else {
        amount_b == 0
    }
}

/// `div_round` gives the rounded quotient.
proof fn lemma_div_round_is_rounded_quotient(n: int, d: int, round_up: bool)
    requires
        n >= 0,
        d > 0,
    ensures
        is_rounded_quotient(div_round(n, d, round_up), n, d, round_up),
{
    lemma_fundamental_div_mod(n, d);
    lemma_mod_pos_bound(n, d);
    let q = n / d;
    let r = n % d;
    assert(q * d <= n && n < (q + 1) * d) by (nonlinear_arith)
        requires n == d * q + r, 0 <= r < d;
    if round_up && r != 0 {
        assert(q * d < n && n <= (q + 1) * d) by (nonlinear_arith)
            requires n == d * q + r, 0 < r < d;
    }
    if round_up && r == 0 {
        assert((q - 1) * d < n && n <= q * d) by (nonlinear_arith)
            requires n == d * q + r, r == 0, d > 0;
    }
}

/// The token A amount over `[lo, hi)` is the rounded quotient of its formula.
proof fn lemma_amount_a_is_rounded(lo: u128, hi: u128, liquidity: u128, round_up: bool)
    requires
        0 < lo < hi,
    ensures
        spec_amount_a_delta(lo, hi, liquidity, round_up) matches Ok(a) ==> is_rounded_quotient(
            a as int,
            liquidity * (hi - lo) * pow64(),
            lo * hi,
            round_up,
        ),
{
    assert(lo * hi > 0) by (nonlinear_arith)
        requires lo > 0, hi > 0;
    assert(liquidity * (hi - lo) * pow64() >= 0) by (nonlinear_arith)
        requires liquidity >= 0, hi > lo;
    if liquidity == 0 {
        assert(liquidity * (hi - lo) * pow64() == 0) by (nonlinear_arith)
            requires liquidity == 0;
        assert(0 * (lo * hi) == 0) by (nonlinear_arith);
        assert((0 - 1) * (lo * hi) < 0) by (nonlinear_arith)
            requires lo * hi > 0;
    } else {
        lemma_div_round_is_rounded_quotient(liquidity * (hi - lo) * pow64(), lo * hi, round_up);
    }
}

/// The token B amount over `[lo, hi)` is the rounded quotient of its formula.
proof fn lemma_amount_b_is_rounded(lo: u128, hi: u128, liquidity: u128, round_up: bool)
    requires
        lo <= hi,
    ensures
        spec_amount_b_delta(lo, hi, liquidity, round_up) matches Ok(b) ==> is_rounded_quotient(
            b as int,
            liquidity * (hi - lo),
            pow64(),
            round_up,
        ),
{
    assert(liquidity * (hi - lo) >= 0) by (nonlinear_arith)
        requires liquidity >= 0, hi >= lo;
    if liquidity == 0 || lo == hi {
        assert(liquidity * (hi - lo) == 0) by (nonlinear_arith)
            requires liquidity == 0 || lo == hi;
    } else {
        lemma_div_round_is_rounded_quotient(liquidity * (hi - lo), pow64(), round_up);
    }
}

/// The tokens charged for (or paid out of) liquidity are what that liquidity stands for at
/// the current price: only token A below the range, only token B above it, both inside it,
/// each the exact share of the liquidity rounded as asked.
pub proof fn lemma_liquidity_amounts_stand_for_liquidity(
    sqrt_price_current: u128,
    sqrt_price_lower: u128,
    sqrt_price_upper: u128,
    liquidity: u128,
    round_up: bool,
)
    requires
        0 < sqrt_price_lower < sqrt_price_upper,
    ensures
        spec_liquidity_amounts(sqrt_price_current, sqrt_price_lower, sqrt_price_upper, liquidity, round_up) matches Ok((a, b))
            ==> amounts_stand_for_liquidity(sqrt_price_current, sqrt_price_lower, sqrt_price_upper, liquidity, round_up, a, b),
{
    let c = sqrt_price_current;
    let lo = sqrt_price_lower;
    let hi = sqrt_price_upper;
    if c < lo {
        lemma_amount_a_is_rounded(lo, hi, liquidity, round_up);
    } else if c >= hi {
        lemma_amount_b_is_rounded(lo, hi, liquidity, round_up);
    } else {
        lemma_amount_a_is_rounded(c, hi, liquidity, round_up);
        lemma_amount_b_is_rounded(lo, c, liquidity, round_up);
        if c == lo {
            assert(liquidity * (c - lo) == 0) by (nonlinear_arith)
                requires c == lo;
        }
    }
}

/// Adding liquidity to a position over a proper range charges exactly the tokens it stands
/// for at the pool's price over that range, rounded up.
pub proof fn lemma_add_liquidity_charges_what_liquidity_stands_for(
    pool: Pool,
    position: Position,
    tick_array_lower: TickArray,
    tick_array_upper: TickArray,
    liquidity_amount: u128,
    token_max_a: u64,
    token_max_b: u64,
)
    ensures
        position.tick_lower_index < position.tick_upper_index ==> (spec_add_liquidity(pool, position, tick_array_lower,
            tick_array_upper, liquidity_amount, token_max_a, token_max_b) matches Ok(c) ==> amounts_stand_for_liquidity(
            pool.sqrt_price,
            sqrt_price_at_tick(position.tick_lower_index as int) as u128,
            sqrt_price_at_tick(position.tick_upper_index as int) as u128,
            liquidity_amount,
            true,
            c.amount_a,
            c.amount_b,
        )),
{
    let lower = position.tick_lower_index as int;
    let upper = position.tick_upper_index as int;
    if MIN_TICK <= lower < upper <= MAX_TICK {
        crate::clmm::math::tick_math::lemma_sqrt_price_strictly_increasing(lower, upper);
        crate::clmm::math::tick_math::lemma_sqrt_price_in_bounds(lower);
        crate::clmm::math::tick_math::lemma_sqrt_price_in_bounds(upper);
        let pl = sqrt_price_at_tick(lower) as u128;
        let pu = sqrt_price_at_tick(upper) as u128;
        lemma_liquidity_amounts_stand_for_liquidity(pool.sqrt_price, pl, pu, liquidity_amount, true);
        if let Ok(c) = spec_add_liquidity(pool, position, tick_array_lower, tick_array_upper, liquidity_amount, token_max_a, token_max_b) {
            let r = spec_liquidity_amounts(pool.sqrt_price, pl, pu, liquidity_amount, true);
            assert(r matches Ok((a, b)) && c.amount_a == a && c.amount_b == b);
        }
    }
}

} // verus!
