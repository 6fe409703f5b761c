use vstd::prelude::*;

use crate::clmm::errors::TidePoolError;
use crate::clmm::events::FeesCollected;
use crate::keys::same_key;
use crate::clmm::instructions::add_liquidity::{locate_tick, spec_fee_growth_inside_pair, spec_tick_in};
use crate::clmm::math::liquidity_math::calculate_fee_growth_inside;
use crate::clmm::state::pool::Pool;
use crate::clmm::state::position::{spec_update_fees, Position};
use crate::clmm::state::tick::{Tick, TickArray};

verus! {

/// Addresses of the accounts that collecting fees is given, as far as the pool checks them.
#[derive(Debug, Clone, Copy, PartialEq, Eq)]
pub struct CollectFees {
    /// The pool account
    pub pool: [u8; 32],
    /// The pool's token A account
    pub token_vault_a: [u8; 32],
    /// The pool's token B account
    pub token_vault_b: [u8; 32],
    /// The signer
    pub owner: [u8; 32],
}

/// The pool's checks on the accounts that collect a position's fees, in order: only the
/// position's owner may sign, both tick arrays must belong to the pool, and the token
/// accounts must be the pool's.
pub open spec fn spec_check_collect_fees_accounts(
    accounts: CollectFees,
    pool: Pool,
    position: Position,
    tick_array_lower: TickArray,
    tick_array_upper: TickArray,
) -> Result<(), TidePoolError> {
    if position.owner != accounts.owner {
        Err(TidePoolError::Unauthorized)
    } else if tick_array_lower.pool != accounts.pool || tick_array_upper.pool != accounts.pool {
        Err(TidePoolError::InvalidTickArray)
    } else if accounts.token_vault_a != pool.token_vault_a || accounts.token_vault_b != pool.token_vault_b {
        Err(TidePoolError::Unauthorized)
    } else {
        Ok(())
    }
}

impl CollectFees {
    /// Checks that these accounts may collect the fees of `position`.
    pub fn validate(
        &self,
        pool: &Pool,
        position: &Position,
        tick_array_lower: &TickArray,
        tick_array_upper: &TickArray,
    ) -> (r: Result<(), TidePoolError>)
        ensures
            r == spec_check_collect_fees_accounts(*self, *pool, *position, *tick_array_lower, *tick_array_upper),
            r is Ok ==> position.owner == self.owner,
    {
        if !same_key(&position.owner, &self.owner) {
            return Err(TidePoolError::Unauthorized);
        }
        if !same_key(&tick_array_lower.pool, &self.pool) {
            return Err(TidePoolError::InvalidTickArray);
        }
        if !same_key(&tick_array_upper.pool, &self.pool) {
            return Err(TidePoolError::InvalidTickArray);
        }
        if !same_key(&self.token_vault_a, &pool.token_vault_a) {
            return Err(TidePoolError::Unauthorized);
        }
        if !same_key(&self.token_vault_b, &pool.token_vault_b) {
            return Err(TidePoolError::Unauthorized);
        }
        Ok(())
    }
}

/// What collecting fees gives: the position with its fees brought up to date, and the
/// fees it then owes.
pub open spec fn spec_collect_fees(
    pool: Pool,
    position: Position,
    tick_array_lower: TickArray,
    tick_array_upper: TickArray,
) -> Result<(Position, u64, u64), TidePoolError> {
    match (spec_tick_in(tick_array_lower, position.tick_lower_index as int, pool.tick_spacing as int),
        spec_tick_in(tick_array_upper, position.tick_upper_index as int, pool.tick_spacing as int)) {
        (Some(tl), Some(tu)) => spec_collect_at(pool, position, tl, tu),
        _ => Err(TidePoolError::InvalidTickArray),
    }
}

/// What collecting gives once the position's two boundary ticks are known: the position
/// with its owed fees brought up to date and then paid out, and the amounts paid; an
/// error when there is nothing to pay.
pub open spec fn spec_collect_at(pool: Pool, position: Position, tick_lower: Tick, tick_upper: Tick) -> Result<
    (Position, u64, u64),
    TidePoolError,
> {
    let (fg_a, fg_b) = spec_fee_growth_inside_pair(pool, position, tick_lower, tick_upper);
    let updated = spec_update_fees(position, fg_a, fg_b);
    if updated.fees_owed_a == 0 && updated.fees_owed_b == 0 {
        Err(TidePoolError::NoFeesToCollect)
    } else {
        Ok((Position { fees_owed_a: 0, fees_owed_b: 0, ..updated }, updated.fees_owed_a, updated.fees_owed_b))
    }
}

/// Collects a position's fees given its two boundary ticks (exec twin of `spec_collect_at`).
pub fn collect_at(pool: &Pool, position: &Position, tick_lower_data: Tick, tick_upper_data: Tick) -> (r: Result<
    (Position, u64, u64),
    TidePoolError,
>)
    ensures
        r == spec_collect_at(*pool, *position, tick_lower_data, tick_upper_data),
{
    let tick_lower = position.tick_lower_index;
    let tick_upper = position.tick_upper_index;
    let fee_growth_inside_a = calculate_fee_growth_inside(
        pool.tick_current_index,
        tick_lower,
        tick_upper,
        pool.fee_growth_global_a,
        tick_lower_data.fee_growth_outside_a,
        tick_upper_data.fee_growth_outside_a,
    );
    let fee_growth_inside_b = calculate_fee_growth_inside(
        pool.tick_current_index,
        tick_lower,
        tick_upper,
        pool.fee_growth_global_b,
        tick_lower_data.fee_growth_outside_b,
        tick_upper_data.fee_growth_outside_b,
    );

    let mut updated = *position;
    updated.update_fees(fee_growth_inside_a, fee_growth_inside_b);

    let fees_a = updated.fees_owed_a;
    let fees_b = updated.fees_owed_b;

    if !(fees_a > 0 || fees_b > 0) {
        return Err(TidePoolError::NoFeesToCollect);
    }

    updated.fees_owed_a = 0;
    updated.fees_owed_b = 0;
    Ok((updated, fees_a, fees_b))
}

pub fn handler(
    pool: &Pool,
    position: &mut Position,
    tick_array_lower: &TickArray,
    tick_array_upper: &TickArray,
    pool_key: [u8; 32],
    position_key: [u8; 32],
    owner: [u8; 32],
) -> (r: Result<FeesCollected, TidePoolError>)
    requires
        pool.inv(),
        old(position).tick_lower_index - tick_array_lower.start_tick_index <= i32::MAX,
        old(position).tick_upper_index - tick_array_upper.start_tick_index <= i32::MAX,
    ensures
        match spec_collect_fees(*pool, *old(position), *tick_array_lower, *tick_array_upper) {
            Ok((p, a, b)) => r == Ok::<FeesCollected, TidePoolError>(
                FeesCollected { pool: pool_key, position: position_key, owner, amount_a: a, amount_b: b },
            ) && *final(position) == p,
            Err(e) => r == Err::<FeesCollected, TidePoolError>(e) && *final(position) == *old(position),
        },
        r is Ok ==> final(position).fees_owed_a == 0 && final(position).fees_owed_b == 0,
{
    let tick_lower = position.tick_lower_index;
    let tick_upper = position.tick_upper_index;

    // Calculate current fee growth inside
    let (_, tick_lower_data) = match locate_tick(tick_array_lower, tick_lower, pool.tick_spacing) {
        Some(t) => t,
        None => {
            return Err(TidePoolError::InvalidTickArray);
        },
    };
    let (_, tick_upper_data) = match locate_tick(tick_array_upper, tick_upper, pool.tick_spacing) {
        Some(t) => t,
        None => {
            return Err(TidePoolError::InvalidTickArray);
        },
    };

    match collect_at(pool, position, tick_lower_data, tick_upper_data) {
        Err(e) => Err(e),
        Ok((updated, fees_a, fees_b)) => {
            *position = updated;
            Ok(FeesCollected { pool: pool_key, position: position_key, owner, amount_a: fees_a, amount_b: fees_b })
        },
    }
}

} // verus!
