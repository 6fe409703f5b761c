use vstd::prelude::*;

use crate::clmm::instructions::add_liquidity::{preview_add_liquidity, spec_add_liquidity, tick_replaced, LiquidityChange};
use crate::clmm::instructions::collect_fees::{collect_at, spec_collect_at};
use crate::clmm::instructions::open_position::{self, spec_open_position_error};
use crate::clmm::instructions::remove_liquidity::{preview_remove_liquidity, spec_remove_liquidity};
use crate::clmm::state::position::saturating_add_u64;
use crate::vault::instructions::compound::{reinvest_liquidity, spec_reinvest_liquidity};
use crate::clmm::state::pool::Pool;
use crate::clmm::state::position::Position;
use crate::clmm::state::tick::TickArray;
use crate::keys::same_key;
use crate::vault::errors::VaultError;
use crate::vault::events::VaultRebalanced;
use crate::vault::state::vault::Vault;

verus! {

/// Addresses of the accounts a rebalance is given, as far as the vault checks them.
#[derive(Debug, Clone, Copy, PartialEq, Eq)]
pub struct Rebalance {
    /// The pool account
    pub pool: [u8; 32],
    /// The vault's token A account
    pub token_vault_a: [u8; 32],
    /// The vault's token B account
    pub token_vault_b: [u8; 32],
    /// The signer
    pub keeper: [u8; 32],
}

/// The vault's checks on the accounts of a rebalance, in order: only its keeper may
/// sign, and the pool and token accounts must be the vault's own.
pub open spec fn spec_check_rebalance_accounts(accounts: Rebalance, v: Vault) -> Result<(), VaultError> {
    if v.keeper != accounts.keeper {
        Err(VaultError::UnauthorizedKeeper)
    } else if accounts.pool != v.pool || accounts.token_vault_a != v.token_vault_a || accounts.token_vault_b
        != v.token_vault_b {
        Err(VaultError::UnauthorizedAuthority)
    } else {
        Ok(())
    }
}

impl Rebalance {
    /// Checks that these accounts may rebalance `vault`.
    pub fn validate(&self, vault: &Vault) -> (r: Result<(), VaultError>)
        ensures
            r == spec_check_rebalance_accounts(*self, *vault),
    {
        if !same_key(&vault.keeper, &self.keeper) {
            return Err(VaultError::UnauthorizedKeeper);
        }
        if !same_key(&self.pool, &vault.pool) {
            return Err(VaultError::UnauthorizedAuthority);
        }
        if !same_key(&self.token_vault_a, &vault.token_vault_a) {
            return Err(VaultError::UnauthorizedAuthority);
        }
        if !same_key(&self.token_vault_b, &vault.token_vault_b) {
            return Err(VaultError::UnauthorizedAuthority);
        }
        Ok(())
    }
}

/// What moving the vault to `[new_tick_lower, new_tick_upper)` at `slot` does: the vault
/// afterwards and the event, or the error that refuses it.
pub open spec fn spec_rebalance(
    v: Vault,
    vault_key: [u8; 32],
    new_tick_lower: i32,
    new_tick_upper: i32,
    slot: u64,
) -> Result<(Vault, VaultRebalanced), VaultError> {
    if v.paused {
        Err(VaultError::VaultPaused)
    } else if !(new_tick_lower < new_tick_upper) {
        Err(VaultError::InvalidTickRange)
    } else if v.rebalance_count == u32::MAX {
        Err(VaultError::MathOverflow)
    } else {
        let count = (v.rebalance_count + 1) as u32;
        Ok(
            (
                Vault {
                    active_tick_lower: new_tick_lower,
                    active_tick_upper: new_tick_upper,
                    last_rebalance_slot: slot,
                    rebalance_count: count,
                    ..v
                },
                VaultRebalanced {
                    vault: vault_key,
                    old_tick_lower: v.active_tick_lower,
                    old_tick_upper: v.active_tick_upper,
                    new_tick_lower,
                    new_tick_upper,
                    rebalance_count: count,
                },
            ),
        )
    }
}

/// The steps of a rebalance, as far as they change the pool's accounts: the vault
/// afterwards and its event, the old position's removal (`None` when it held no
/// liquidity), the old position after its fees were collected, the tokens the pool pays
/// the vault (the removed amounts and the fees), the new position as opened, and the
/// addition to it (`None` when nothing is added).
#[derive(Debug, Clone, Copy, PartialEq, Eq)]
pub struct RebalanceSteps {
    pub vault: Vault,
    pub event: VaultRebalanced,
    pub removal: Option<LiquidityChange>,
    pub old_position: Position,
    pub amount_a_out: u64,
    pub amount_b_out: u64,
    pub new_position: Position,
    pub addition: Option<LiquidityChange>,
}

/// What a rebalance hands back for the caller to act on: the event, the vault's new
/// position (with the liquidity added to it), the tokens the pool pays the vault and the
/// tokens the vault pays into the pool for the new position.
#[derive(Debug, Clone, Copy, PartialEq, Eq)]
pub struct RebalanceOutcome {
    pub event: VaultRebalanced,
    pub new_position: Position,
    pub amount_a_out: u64,
    pub amount_b_out: u64,
    pub amount_a_in: u64,
    pub amount_b_in: u64,
}

/// The empty position the vault opens over `[new_tick_lower, new_tick_upper)`.
pub open spec fn spec_opened_position(
    pool_key: [u8; 32],
    vault_key: [u8; 32],
    position_mint: [u8; 32],
    new_tick_lower: i32,
    new_tick_upper: i32,
    bump: u8,
) -> Position {
    Position {
        pool: pool_key,
        owner: vault_key,
        position_mint,
        tick_lower_index: new_tick_lower,
        tick_upper_index: new_tick_upper,
        liquidity: 0,
        fee_growth_inside_last_a: 0,
        fee_growth_inside_last_b: 0,
        fees_owed_a: 0,
        fees_owed_b: 0,
        bump,
    }
}

/// What a rebalance does: remove all liquidity of the old position, collect its fees,
/// open a position over the new range and add to it the liquidity that the removed tokens
/// and the fees fund at the pool's price; the vault records the new range. Gives the
/// steps, or the error that refuses it.
pub open spec fn spec_rebalance_full(
    v: Vault,
    vault_key: [u8; 32],
    pool: Pool,
    position: Position,
    tick_array_lower: TickArray,
    tick_array_upper: TickArray,
    new_tick_array_lower: TickArray,
    new_tick_array_upper: TickArray,
    pool_key: [u8; 32],
    new_position_mint: [u8; 32],
    new_position_bump: u8,
    new_tick_lower: i32,
    new_tick_upper: i32,
    slot: u64,
) -> Result<RebalanceSteps, VaultError> {
    match spec_rebalance(v, vault_key, new_tick_lower, new_tick_upper, slot) {
        Err(e) => Err(e),
        Ok((v2, event)) => match spec_open_position_error(pool.tick_spacing, new_tick_lower, new_tick_upper) {
            Some(e) => Err(VaultError::Clmm(e)),
            None => {
                let np = spec_opened_position(pool_key, vault_key, new_position_mint, new_tick_lower, new_tick_upper, new_position_bump);
                if position.liquidity == 0 {
                    Ok(RebalanceSteps {
                        vault: v2,
                        event,
                        removal: None,
                        old_position: position,
                        amount_a_out: 0,
                        amount_b_out: 0,
                        new_position: np,
                        addition: None,
                    })
                } else {
                    match spec_remove_liquidity(pool, position, tick_array_lower, tick_array_upper, position.liquidity, 0, 0) {
                        Err(e) => Err(VaultError::Clmm(e)),
                        Ok(c) => {
                            let (p2, fees_a, fees_b) = match spec_collect_at(c.pool, c.position, c.tick_lower, c.tick_upper) {
                                Ok(t) => t,
                                Err(_) => (c.position, 0u64, 0u64),
                            };
                            let out_a = saturating_add_u64(c.amount_a, fees_a);
                            let out_b = saturating_add_u64(c.amount_b, fees_b);
                            let liquidity = spec_reinvest_liquidity(c.pool, np, out_a, out_b);
                            if liquidity == 0 {
                                Ok(RebalanceSteps {
                                    vault: v2,
                                    event,
                                    removal: Some(c),
                                    old_position: p2,
                                    amount_a_out: out_a,
                                    amount_b_out: out_b,
                                    new_position: np,
                                    addition: None,
                                })
                            } else {
                                match spec_add_liquidity(c.pool, np, new_tick_array_lower, new_tick_array_upper, liquidity, out_a, out_b) {
                                    Err(e) => Err(VaultError::Clmm(e)),
                                    Ok(c2) => Ok(RebalanceSteps {
                                        vault: v2,
                                        event,
                                        removal: Some(c),
                                        old_position: p2,
                                        amount_a_out: out_a,
                                        amount_b_out: out_b,
                                        new_position: np,
                                        addition: Some(c2),
                                    }),
                                }
                            }
                        },
                    }
                }
            },
        },
    }
}

/// What the caller is handed after the steps `st`.
pub open spec fn spec_rebalance_outcome(st: RebalanceSteps) -> RebalanceOutcome {
    match st.addition {
        Some(c2) => RebalanceOutcome {
            event: st.event,
            new_position: c2.position,
            amount_a_out: st.amount_a_out,
            amount_b_out: st.amount_b_out,
            amount_a_in: c2.amount_a,
            amount_b_in: c2.amount_b,
        },
        None => RebalanceOutcome {
            event: st.event,
            new_position: st.new_position,
            amount_a_out: st.amount_a_out,
            amount_b_out: st.amount_b_out,
            amount_a_in: 0,
            amount_b_in: 0,
        },
    }
}

/// The pool's accounts after the steps `st`: the pool as the last step left it, the old
/// position as collected, and the boundary ticks of the old and the new range replaced.
pub open spec fn rebalance_applied(
    pool: Pool,
    position: Position,
    tick_array_lower: TickArray,
    tick_array_upper: TickArray,
    new_tick_array_lower: TickArray,
    new_tick_array_upper: TickArray,
    st: RebalanceSteps,
    pool2: Pool,
    position2: Position,
    tick_array_lower2: TickArray,
    tick_array_upper2: TickArray,
    new_tick_array_lower2: TickArray,
    new_tick_array_upper2: TickArray,
) -> bool {
    &&& position2 == st.old_position
    &&& pool2 == (match st.addition {
        Some(c2) => c2.pool,
        None => match st.removal {
            Some(c) => c.pool,
            None => pool,
        },
    })
    &&& match st.removal {
        Some(c) => {
            &&& tick_replaced(tick_array_lower, tick_array_lower2, position.tick_lower_index as int, pool.tick_spacing as int, c.tick_lower)
            &&& tick_replaced(tick_array_upper, tick_array_upper2, position.tick_upper_index as int, pool.tick_spacing as int, c.tick_upper)
        },
        None => tick_array_lower2 == tick_array_lower && tick_array_upper2 == tick_array_upper,
    }
    &&& match st.addition {
        Some(c2) => {
            &&& tick_replaced(new_tick_array_lower, new_tick_array_lower2, st.new_position.tick_lower_index as int, pool.tick_spacing as int, c2.tick_lower)
            &&& tick_replaced(new_tick_array_upper, new_tick_array_upper2, st.new_position.tick_upper_index as int, pool.tick_spacing as int, c2.tick_upper)
        },
        None => new_tick_array_lower2 == new_tick_array_lower && new_tick_array_upper2 == new_tick_array_upper,
    }
}

/// The pool accounts after a removal `change` (none: unchanged).
pub open spec fn pool_accounts_after(
    pool: Pool,
    position: Position,
    tick_array_lower: TickArray,
    tick_array_upper: TickArray,
    change: Option<LiquidityChange>,
    pool2: Pool,
    position2: Position,
    tick_array_lower2: TickArray,
    tick_array_upper2: TickArray,
) -> bool {
    match change {
        None => pool2 == pool && position2 == position && tick_array_lower2 == tick_array_lower
            && tick_array_upper2 == tick_array_upper,
        Some(c) => {
            &&& pool2 == c.pool
            &&& position2 == c.position
            &&& tick_replaced(tick_array_lower, tick_array_lower2, position.tick_lower_index as int, pool.tick_spacing as int, c.tick_lower)
            &&& tick_replaced(tick_array_upper, tick_array_upper2, position.tick_upper_index as int, pool.tick_spacing as int, c.tick_upper)
        },
    }
}

/// Fees owed to the vault's old position are never dropped by a rebalance: what the pool
/// pays the vault plus what the old position still owes afterwards is exactly the removed
/// liquidity's tokens plus the fees the position was owed once they were brought up to date
/// (as long as that sum fits in a `u64`). The old position ends empty, and a position
/// without liquidity is left as it was, with nothing paid out.
#[verifier::spinoff_prover]
pub proof fn lemma_rebalance_keeps_owed_fees(
    v: Vault,
    vault_key: [u8; 32],
    pool: Pool,
    position: Position,
    tick_array_lower: TickArray,
    tick_array_upper: TickArray,
    new_tick_array_lower: TickArray,
    new_tick_array_upper: TickArray,
    pool_key: [u8; 32],
    new_position_mint: [u8; 32],
    new_position_bump: u8,
    new_tick_lower: i32,
    new_tick_upper: i32,
    slot: u64,
)
    ensures
        spec_rebalance_full(v, vault_key, pool, position, tick_array_lower, tick_array_upper, new_tick_array_lower,
            new_tick_array_upper, pool_key, new_position_mint, new_position_bump, new_tick_lower, new_tick_upper, slot) matches Ok(st)
            ==> {
            &&& st.old_position.liquidity == 0
            &&& match st.removal {
                Some(c) => {
                    &&& c == spec_remove_liquidity(pool, position, tick_array_lower, tick_array_upper, position.liquidity, 0, 0)->Ok_0
                    &&& (c.amount_a + c.position.fees_owed_a <= u64::MAX ==> st.amount_a_out + st.old_position.fees_owed_a
                        == c.amount_a + c.position.fees_owed_a)
                    &&& (c.amount_b + c.position.fees_owed_b <= u64::MAX ==> st.amount_b_out + st.old_position.fees_owed_b
                        == c.amount_b + c.position.fees_owed_b)
                },
                None => st.old_position == position && st.amount_a_out == 0 && st.amount_b_out == 0,
            }
        },
{
    if position.liquidity != 0 {
        if let Ok(c) = spec_remove_liquidity(pool, position, tick_array_lower, tick_array_upper, position.liquidity, 0, 0) {
            // the removal takes all liquidity, so the collection adds nothing to what is owed
            assert(c.position.liquidity == 0);
            match spec_collect_at(c.pool, c.position, c.tick_lower, c.tick_upper) {
                Ok((p2, fees_a, fees_b)) => {
                    assert(fees_a == c.position.fees_owed_a && fees_b == c.position.fees_owed_b);
                    assert(p2.fees_owed_a == 0 && p2.fees_owed_b == 0 && p2.liquidity == 0);
                },
                Err(_) => {
                    assert(c.position.fees_owed_a == 0 && c.position.fees_owed_b == 0);
                },
            }
        }
    }
}

/// Moves the vault to `[new_tick_lower, new_tick_upper)`, once `Rebalance::validate` has
/// accepted the accounts: all liquidity of the old position is removed and its fees are
/// collected (the pool pays both to the vault, which owns the position), a position over
/// the new range is opened, and the liquidity that those tokens fund at the pool's price
/// is added to it; the vault records the new range so that the keeper knows when to move
/// again. The result holds what the caller acts on: the new position and the tokens paid
/// each way. On an error nothing changes.
pub fn handler(
    vault: &mut Vault,
    vault_key: [u8; 32],
    pool: &mut Pool,
    position: &mut Position,
    tick_array_lower: &mut TickArray,
    tick_array_upper: &mut TickArray,
    new_tick_array_lower: &mut TickArray,
    new_tick_array_upper: &mut TickArray,
    pool_key: [u8; 32],
    new_position_mint: [u8; 32],
    new_position_bump: u8,
    new_tick_lower: i32,
    new_tick_upper: i32,
    slot: u64,
) -> (r: Result<RebalanceOutcome, VaultError>)
    requires
        old(pool).inv(),
        old(tick_array_lower).inv(),
        old(tick_array_upper).inv(),
        old(new_tick_array_lower).inv(),
        old(new_tick_array_upper).inv(),
    ensures
        final(pool).inv(),
        match spec_rebalance_full(*old(vault), vault_key, *old(pool), *old(position), *old(tick_array_lower),
            *old(tick_array_upper), *old(new_tick_array_lower), *old(new_tick_array_upper), pool_key, new_position_mint,
            new_position_bump, new_tick_lower, new_tick_upper, slot) {
            Err(e) => {
                &&& r == Err::<RebalanceOutcome, VaultError>(e)
                &&& *final(vault) == *old(vault)
                &&& *final(pool) == *old(pool)
                &&& *final(position) == *old(position)
                &&& *final(tick_array_lower) == *old(tick_array_lower)
                &&& *final(tick_array_upper) == *old(tick_array_upper)
                &&& *final(new_tick_array_lower) == *old(new_tick_array_lower)
                &&& *final(new_tick_array_upper) == *old(new_tick_array_upper)
            },
            Ok(st) => {
                &&& r == Ok::<RebalanceOutcome, VaultError>(spec_rebalance_outcome(st))
                &&& *final(vault) == st.vault
                &&& rebalance_applied(*old(pool), *old(position), *old(tick_array_lower), *old(tick_array_upper),
                    *old(new_tick_array_lower), *old(new_tick_array_upper), st, *final(pool), *final(position),
                    *final(tick_array_lower), *final(tick_array_upper), *final(new_tick_array_lower), *final(new_tick_array_upper))
            },
        },
        // after a rebalance the old position holds no liquidity, and the new one spans the new range
        r is Ok ==> final(position).liquidity == 0,
        r matches Ok(o) ==> o.new_position.tick_lower_index == new_tick_lower && o.new_position.tick_upper_index == new_tick_upper
            && o.new_position.owner == vault_key,
        // the vault never pays in more than the pool paid it
        r matches Ok(o) ==> o.amount_a_in <= o.amount_a_out && o.amount_b_in <= o.amount_b_out,
        // moving the range leaves the holders' shares and the vault's holdings as they were
        final(vault).total_shares == old(vault).total_shares,
        final(vault).total_value_a == old(vault).total_value_a,
        final(vault).total_value_b == old(vault).total_value_b,
{
    if vault.paused {
        return Err(VaultError::VaultPaused);
    }
    if !(new_tick_lower < new_tick_upper) {
        return Err(VaultError::InvalidTickRange);
    }

    let old_tick_lower = vault.active_tick_lower;
    let old_tick_upper = vault.active_tick_upper;

    let rebalance_count = match vault.rebalance_count.checked_add(1) {
        Some(c) => c,
        None => {
            return Err(VaultError::MathOverflow);
        },
    };
    let event = VaultRebalanced {
        vault: vault_key,
        old_tick_lower,
        old_tick_upper,
        new_tick_lower,
        new_tick_upper,
        rebalance_count,
    };

    // The position over the new range
    let new_position = match open_position::handler(pool, pool_key, vault_key, new_position_mint, new_tick_lower, new_tick_upper, new_position_bump) {
        Ok(p) => p,
        Err(e) => {
            return Err(VaultError::Clmm(e));
        },
    };

    let mut outcome = RebalanceOutcome {
        event,
        new_position,
        amount_a_out: 0,
        amount_b_out: 0,
        amount_a_in: 0,
        amount_b_in: 0,
    };

    if position.liquidity > 0 {
        // Step 1: Remove all liquidity from the current position
        let (removed, old_lower_offset, old_upper_offset) = match preview_remove_liquidity(
            pool,
            position,
            tick_array_lower,
            tick_array_upper,
            position.liquidity,
            0,
            0,
        ) {
            Ok(t) => t,
            Err(e) => {
                return Err(VaultError::Clmm(e));
            },
        };
        // Step 2: Collect its fees
        let (collected, fees_a, fees_b) = match collect_at(&removed.pool, &removed.position, removed.tick_lower, removed.tick_upper) {
            Ok(t) => t,
            Err(_) => (removed.position, 0u64, 0u64),
        };
        let out_a = removed.amount_a.saturating_add(fees_a);
        let out_b = removed.amount_b.saturating_add(fees_b);
        outcome.amount_a_out = out_a;
        outcome.amount_b_out = out_b;

        // Step 3: Add what those tokens fund to the new position
        let liquidity = reinvest_liquidity(&removed.pool, &new_position, out_a, out_b);
        let mut pool_after = removed.pool;
        if liquidity > 0 {
            let (added, new_lower_offset, new_upper_offset) = match preview_add_liquidity(
                &removed.pool,
                &new_position,
                new_tick_array_lower,
                new_tick_array_upper,
                liquidity,
                out_a,
                out_b,
            ) {
                Ok(t) => t,
                Err(e) => {
                    return Err(VaultError::Clmm(e));
                },
            };
            pool_after = added.pool;
            new_tick_array_lower.ticks.set(new_lower_offset, added.tick_lower);
            new_tick_array_upper.ticks.set(new_upper_offset, added.tick_upper);
            outcome.new_position = added.position;
            outcome.amount_a_in = added.amount_a;
            outcome.amount_b_in = added.amount_b;
        }
        tick_array_lower.ticks.set(old_lower_offset, removed.tick_lower);
        tick_array_upper.ticks.set(old_upper_offset, removed.tick_upper);
        *position = collected;
        *pool = pool_after;
    }

    // Update vault state
    vault.active_tick_lower = new_tick_lower;
    vault.active_tick_upper = new_tick_upper;
    vault.last_rebalance_slot = slot;
    vault.rebalance_count = rebalance_count;

    Ok(outcome)
}

} // verus!
