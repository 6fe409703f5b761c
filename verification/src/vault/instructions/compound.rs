use vstd::prelude::*;

use crate::clmm::math::sqrt_price_math::{lemma_low_u64, low_u64};
use crate::clmm::state::position::saturating_add_u64;
use crate::clmm::instructions::add_liquidity::{preview_add_liquidity, spec_add_liquidity, LiquidityChange};
use crate::clmm::instructions::collect_fees::{self, spec_collect_fees};
use crate::clmm::math::sqrt_price_math::{liquidity_for_amounts, spec_liquidity_for_amounts};
use crate::clmm::math::tick_math::{sqrt_price_at_tick, tick_to_sqrt_price, MAX_SQRT_PRICE, MIN_SQRT_PRICE};
use crate::clmm::state::tick::{MAX_TICK, MIN_TICK};
use crate::vault::instructions::rebalance::pool_accounts_after;
use crate::clmm::state::pool::Pool;
use crate::clmm::state::position::Position;
use crate::clmm::state::tick::TickArray;
use crate::keys::same_key;
use crate::vault::errors::VaultError;
use crate::vault::events::VaultCompounded;
use crate::vault::state::vault::Vault;

verus! {

/// Basis points in a whole.
pub const BPS_DENOMINATOR: u128 = 10_000;

/// `a - b`, floored at zero.
pub open spec fn saturating_sub_u64(a: u64, b: u64) -> u64 {
    if a >= b {
        (a - b) as u64
    } else {
        0
    }
}

/// The performance fee on `collected` at `fee_bps` basis points, rounded down and cut
/// to 64 bits.
pub open spec fn spec_performance_fee(collected: u64, fee_bps: u16) -> u64 {
    low_u64((collected * fee_bps) / 10_000)
}

/// Addresses of the accounts a compounding is given, as far as the vault checks them.
#[derive(Debug, Clone, Copy, PartialEq, Eq)]
pub struct Compound {
    /// The pool account
    pub pool: [u8; 32],
    /// The vault's token A account
    pub token_vault_a: [u8; 32],
    /// The vault's token B account
    pub token_vault_b: [u8; 32],
    /// The signer
    pub keeper: [u8; 32],
}

/// The vault's checks on the accounts of a compounding, in order: only its keeper may
/// sign, and the pool and token accounts must be the vault's own.
pub open spec fn spec_check_compound_accounts(accounts: Compound, v: Vault) -> Result<(), VaultError> {
    if v.keeper != accounts.keeper {
        Err(VaultError::UnauthorizedKeeper)
    } else if accounts.pool != v.pool || accounts.token_vault_a != v.token_vault_a || accounts.token_vault_b
        != v.token_vault_b {
        Err(VaultError::UnauthorizedAuthority)
    } else {
        Ok(())
    }
}

impl Compound {
    /// Checks that these accounts may compound `vault`.
    pub fn validate(&self, vault: &Vault) -> (r: Result<(), VaultError>)
        ensures
            r == spec_check_compound_accounts(*self, *vault),
    {
        if !same_key(&vault.keeper, &self.keeper) {
            return Err(VaultError::UnauthorizedKeeper);
        }
        if !same_key(&self.pool, &vault.pool) {
            return Err(VaultError::UnauthorizedAuthority);
        }
        if !same_key(&self.token_vault_a, &vault.token_vault_a) {
            return Err(VaultError::UnauthorizedAuthority);
        }
        if !same_key(&self.token_vault_b, &vault.token_vault_b) {
            return Err(VaultError::UnauthorizedAuthority);
        }
        Ok(())
    }
}

/// What compounding does when the vault's token balances went from `balance_*_before`
/// to `balance_*_after` while the position's fees were collected: the vault afterwards
/// and the event, or the error that refuses it.
pub open spec fn spec_compound(
    v: Vault,
    vault_key: [u8; 32],
    balance_a_before: u64,
    balance_b_before: u64,
    balance_a_after: u64,
    balance_b_after: u64,
    slot: u64,
) -> Result<(Vault, VaultCompounded), VaultError> {
    if v.paused {
        Err(VaultError::VaultPaused)
    } else if !v.has_active_position {
        Err(VaultError::NoActivePosition)
    } else {
        let fees_a = saturating_sub_u64(balance_a_after, balance_a_before);
        let fees_b = saturating_sub_u64(balance_b_after, balance_b_before);
        let performance_fee_a = spec_performance_fee(fees_a, v.performance_fee_bps);
        let performance_fee_b = spec_performance_fee(fees_b, v.performance_fee_bps);
        let compound_a = saturating_sub_u64(fees_a, performance_fee_a);
        let compound_b = saturating_sub_u64(fees_b, performance_fee_b);
        Ok(
            (
                Vault {
                    total_fees_earned_a: saturating_add_u64(v.total_fees_earned_a, fees_a),
                    total_fees_earned_b: saturating_add_u64(v.total_fees_earned_b, fees_b),
                    total_value_a: saturating_add_u64(v.total_value_a, compound_a),
                    total_value_b: saturating_add_u64(v.total_value_b, compound_b),
                    last_compound_slot: slot,
                    ..v
                },
                VaultCompounded {
                    vault: vault_key,
                    fees_a,
                    fees_b,
                    performance_fee_a,
                    performance_fee_b,
                },
            ),
        )
    }
}

/// The performance fee on `collected`, as the vault computes it.
fn performance_fee(collected: u64, fee_bps: u16) -> (r: u64)
    ensures
        r == spec_performance_fee(collected, fee_bps),
{
    let product = match (collected as u128).checked_mul(fee_bps as u128) {
        Some(p) => p,
        None => 0,
    };
    proof {
        assert((collected as u128) * (fee_bps as u128) <= u128::MAX) by (nonlinear_arith);
    }
    let fee = product / BPS_DENOMINATOR;
    proof {
        lemma_low_u64(fee);
    }
    fee as u64
}

/// Folds the fees collected into the vault back into it, less the performance fee: the
/// vault's token balances went from `balance_*_before` to `balance_*_after` while the
/// position's fees were collected into them. On an error nothing changes.
pub fn fold_collected_fees(
    vault: &mut Vault,
    vault_key: [u8; 32],
    balance_a_before: u64,
    balance_b_before: u64,
    balance_a_after: u64,
    balance_b_after: u64,
    slot: u64,
) -> (r: Result<VaultCompounded, VaultError>)
    ensures
        match spec_compound(
            *old(vault),
            vault_key,
            balance_a_before,
            balance_b_before,
            balance_a_after,
            balance_b_after,
            slot,
        ) {
            Ok((v, event)) => r == Ok::<VaultCompounded, VaultError>(event) && *final(vault) == v,
            Err(e) => r == Err::<VaultCompounded, VaultError>(e) && *final(vault) == *old(vault),
        },
        // compounding never takes from the holders: shares stay, holdings only grow
        final(vault).total_shares == old(vault).total_shares,
        final(vault).total_value_a >= old(vault).total_value_a,
        final(vault).total_value_b >= old(vault).total_value_b,
        r is Ok && old(vault).performance_fee_bps <= BPS_DENOMINATOR ==> r->Ok_0.performance_fee_a
            <= r->Ok_0.fees_a && r->Ok_0.performance_fee_b <= r->Ok_0.fees_b,
{
    if vault.paused {
        return Err(VaultError::VaultPaused);
    }
    if !vault.has_active_position {
        return Err(VaultError::NoActivePosition);
    }

    let collected_fees_a = balance_a_after.saturating_sub(balance_a_before);
    let collected_fees_b = balance_b_after.saturating_sub(balance_b_before);

    // Deduct performance fee
    let performance_fee_a = performance_fee(collected_fees_a, vault.performance_fee_bps);
    let performance_fee_b = performance_fee(collected_fees_b, vault.performance_fee_bps);
    proof {
        if vault.performance_fee_bps <= BPS_DENOMINATOR {
            assert(collected_fees_a * vault.performance_fee_bps <= collected_fees_a * 10_000) by (nonlinear_arith)
                requires
                    vault.performance_fee_bps <= 10_000,
            ;
            assert(collected_fees_b * vault.performance_fee_bps <= collected_fees_b * 10_000) by (nonlinear_arith)
                requires
                    vault.performance_fee_bps <= 10_000,
            ;
        }
    }

    let compound_a = collected_fees_a.saturating_sub(performance_fee_a);
    let compound_b = collected_fees_b.saturating_sub(performance_fee_b);

    // Update vault accounting
    vault.total_fees_earned_a = vault.total_fees_earned_a.saturating_add(collected_fees_a);
    vault.total_fees_earned_b = vault.total_fees_earned_b.saturating_add(collected_fees_b);
    vault.total_value_a = vault.total_value_a.saturating_add(compound_a);
    vault.total_value_b = vault.total_value_b.saturating_add(compound_b);
    vault.last_compound_slot = slot;

    Ok(
        VaultCompounded {
            vault: vault_key,
            fees_a: collected_fees_a,
            fees_b: collected_fees_b,
            performance_fee_a,
            performance_fee_b,
        },
    )
}

/// What compounding puts back into the position: the liquidity added and the token amounts
/// the vault pays into the pool for it (all zero when nothing is added).
#[derive(Debug, Clone, Copy, PartialEq, Eq)]
pub struct Reinvested {
    pub liquidity: u128,
    pub amount_a: u64,
    pub amount_b: u64,
}

/// The liquidity that `amount_a` and `amount_b` fund in `position` at the pool's price;
/// zero when the position's ticks do not give a price range.
pub open spec fn spec_reinvest_liquidity(pool: Pool, position: Position, amount_a: u64, amount_b: u64) -> u128 {
    let lower = position.tick_lower_index;
    let upper = position.tick_upper_index;
    if MIN_TICK <= lower <= MAX_TICK && MIN_TICK <= upper <= MAX_TICK && sqrt_price_at_tick(lower as int)
        < sqrt_price_at_tick(upper as int) {
        spec_liquidity_for_amounts(
            pool.sqrt_price,
            sqrt_price_at_tick(lower as int) as u128,
            sqrt_price_at_tick(upper as int) as u128,
            amount_a,
            amount_b,
        ) as u128
    } else {
        0
    }
}

/// What compounding does: the pool pays the position's fees into the vault's token
/// accounts (whose balances were `balance_*_before`), the vault folds them in less the
/// performance fee, and puts that remainder back into the position as the liquidity it
/// funds. Gives the vault afterwards, the event, the position after the collection, and
/// the pool's answer to the addition (`None` when no liquidity is added), or the error
/// that refuses it.
pub open spec fn spec_compound_with_collection(
    v: Vault,
    vault_key: [u8; 32],
    pool: Pool,
    position: Position,
    tick_array_lower: TickArray,
    tick_array_upper: TickArray,
    balance_a_before: u64,
    balance_b_before: u64,
    slot: u64,
) -> Result<(Vault, VaultCompounded, Position, Option<LiquidityChange>), VaultError> {
    if v.paused {
        Err(VaultError::VaultPaused)
    } else if !v.has_active_position {
        Err(VaultError::NoActivePosition)
    } else {
        match spec_collect_fees(pool, position, tick_array_lower, tick_array_upper) {
            Err(e) => Err(VaultError::Clmm(e)),
            Ok((p, fees_a, fees_b)) => {
                if balance_a_before + fees_a > u64::MAX || balance_b_before + fees_b > u64::MAX {
                    Err(VaultError::MathOverflow)
                } else {
                    match spec_compound(
                        v,
                        vault_key,
                        balance_a_before,
                        balance_b_before,
                        (balance_a_before + fees_a) as u64,
                        (balance_b_before + fees_b) as u64,
                        slot,
                    ) {
                        Err(e) => Err(e),
                        Ok((v2, event)) => {
                            let rest_a = saturating_sub_u64(event.fees_a, event.performance_fee_a);
                            let rest_b = saturating_sub_u64(event.fees_b, event.performance_fee_b);
                            let liquidity = spec_reinvest_liquidity(pool, p, rest_a, rest_b);
                            if liquidity == 0 {
                                Ok((v2, event, p, None))
                            } else {
                                match spec_add_liquidity(pool, p, tick_array_lower, tick_array_upper, liquidity, rest_a, rest_b) {
                                    Err(e) => Err(VaultError::Clmm(e)),
                                    Ok(c) => Ok((v2, event, p, Some(c))),
                                }
                            }
                        },
                    }
                }
            },
        }
    }
}

/// The liquidity that `amount_a` and `amount_b` fund in `position` (exec twin of
/// `spec_reinvest_liquidity`).
pub(crate) fn reinvest_liquidity(pool: &Pool, position: &Position, amount_a: u64, amount_b: u64) -> (r: u128)
    ensures
        r == spec_reinvest_liquidity(*pool, *position, amount_a, amount_b),
{
    let lower = match tick_to_sqrt_price(position.tick_lower_index) {
        Ok(p) => p,
        Err(_) => {
            return 0;
        },
    };
    let upper = match tick_to_sqrt_price(position.tick_upper_index) {
        Ok(p) => p,
        Err(_) => {
            return 0;
        },
    };
    if lower >= upper {
        return 0;
    }
    assert(MIN_SQRT_PRICE > 0 && MAX_SQRT_PRICE <= 0xffff_ffff_ffff_ffff_ffff_ffff);
    liquidity_for_amounts(pool.sqrt_price, lower, upper, amount_a, amount_b)
}

/// Collects the trading fees earned by the vault's position into the vault's token
/// accounts (whose balances were `balance_*_before`), folds them into the vault less the
/// performance fee, and reinvests that remainder in the position, once
/// `Compound::validate` has accepted the accounts. The result holds the event and what was
/// put back into the pool. On an error nothing changes.
pub fn handler(
    vault: &mut Vault,
    vault_key: [u8; 32],
    pool: &mut Pool,
    position: &mut Position,
    tick_array_lower: &mut TickArray,
    tick_array_upper: &mut TickArray,
    pool_key: [u8; 32],
    position_key: [u8; 32],
    balance_a_before: u64,
    balance_b_before: u64,
    slot: u64,
) -> (r: Result<(VaultCompounded, Reinvested), VaultError>)
    requires
        old(pool).inv(),
        old(tick_array_lower).inv(),
        old(tick_array_upper).inv(),
        old(position).tick_lower_index - old(tick_array_lower).start_tick_index <= i32::MAX,
        old(position).tick_upper_index - old(tick_array_upper).start_tick_index <= i32::MAX,
    ensures
        final(pool).inv(),
        match spec_compound_with_collection(*old(vault), vault_key, *old(pool), *old(position), *old(tick_array_lower),
            *old(tick_array_upper), balance_a_before, balance_b_before, slot) {
            Ok((v, event, p, change)) => {
                &&& r matches Ok((e, re)) && e == event && (match change {
                    None => re == (Reinvested { liquidity: 0, amount_a: 0, amount_b: 0 }),
                    Some(c) => re == (Reinvested {
                        liquidity: (c.position.liquidity - p.liquidity) as u128,
                        amount_a: c.amount_a,
                        amount_b: c.amount_b,
                    }),
                })
                &&& *final(vault) == v
                &&& pool_accounts_after(*old(pool), p, *old(tick_array_lower), *old(tick_array_upper), change,
                    *final(pool), *final(position), *final(tick_array_lower), *final(tick_array_upper))
            },
            Err(e) => {
                &&& r == Err::<(VaultCompounded, Reinvested), VaultError>(e)
                &&& *final(vault) == *old(vault)
                &&& pool_accounts_after(*old(pool), *old(position), *old(tick_array_lower), *old(tick_array_upper), None,
                    *final(pool), *final(position), *final(tick_array_lower), *final(tick_array_upper))
            },
        },
        // compounding never takes from the holders: shares stay, holdings only grow
        final(vault).total_shares == old(vault).total_shares,
        final(vault).total_value_a >= old(vault).total_value_a,
        final(vault).total_value_b >= old(vault).total_value_b,
        r matches Ok((e, _)) ==> (old(vault).performance_fee_bps <= BPS_DENOMINATOR ==> e.performance_fee_a
            <= e.fees_a && e.performance_fee_b <= e.fees_b),
        // what is put back never exceeds the fees left after the performance fee
        r matches Ok((e, re)) ==> (re.amount_a <= saturating_sub_u64(e.fees_a, e.performance_fee_a)
            && re.amount_b <= saturating_sub_u64(e.fees_b, e.performance_fee_b)),
{
    if vault.paused {
        return Err(VaultError::VaultPaused);
    }
    if !vault.has_active_position {
        return Err(VaultError::NoActivePosition);
    }

    // Collect accumulated trading fees from the position into the vault's token accounts
    let mut collected_position = *position;
    let collected = match collect_fees::handler(pool, &mut collected_position, tick_array_lower, tick_array_upper, pool_key, position_key, vault_key) {
        Ok(event) => event,
        Err(e) => {
            return Err(VaultError::Clmm(e));
        },
    };
    if balance_a_before > u64::MAX - collected.amount_a || balance_b_before > u64::MAX - collected.amount_b {
        return Err(VaultError::MathOverflow);
    }
    let balance_a_after = balance_a_before + collected.amount_a;
    let balance_b_after = balance_b_before + collected.amount_b;

    let mut folded = *vault;
    let event = match fold_collected_fees(&mut folded, vault_key, balance_a_before, balance_b_before, balance_a_after, balance_b_after, slot) {
        Ok(e) => e,
        Err(e) => {
            return Err(e);
        },
    };

    // Reinvest what is left after the performance fee
    let rest_a = event.fees_a.saturating_sub(event.performance_fee_a);
    let rest_b = event.fees_b.saturating_sub(event.performance_fee_b);
    let liquidity = reinvest_liquidity(pool, &collected_position, rest_a, rest_b);
    if liquidity == 0 {
        *position = collected_position;
        *vault = folded;
        return Ok((event, Reinvested { liquidity: 0, amount_a: 0, amount_b: 0 }));
    }
    match preview_add_liquidity(pool, &collected_position, tick_array_lower, tick_array_upper, liquidity, rest_a, rest_b) {
        Err(e) => Err(VaultError::Clmm(e)),
        Ok((c, lower_offset, upper_offset)) => {
            *pool = c.pool;
            *position = c.position;
            tick_array_lower.ticks.set(lower_offset, c.tick_lower);
            tick_array_upper.ticks.set(upper_offset, c.tick_upper);
            *vault = folded;
            Ok((event, Reinvested { liquidity, amount_a: c.amount_a, amount_b: c.amount_b }))
        },
    }
}

} // verus!
