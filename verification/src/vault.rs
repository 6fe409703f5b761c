//! Auto-rebalancing vault over a CLMM pool: share accounting and the state
//! transitions of each instruction. The functions below are the vault program's
//! entry points.
pub mod errors;
pub mod events;
pub mod instructions;
pub mod state;

use vstd::prelude::*;

use crate::vault::errors::VaultError;
use crate::vault::events::{VaultCompounded, VaultDeposited, VaultInitialized, VaultRebalanced, VaultWithdrawn};
use crate::vault::instructions::compound::{spec_check_compound_accounts, spec_compound_with_collection, Compound, Reinvested};
use crate::vault::instructions::deposit::{spec_check_deposit_accounts, spec_deposit, VaultDeposit};
use crate::vault::instructions::initialize_vault::{is_default_key, spec_new_vault, valid_vault_config};
use crate::vault::instructions::rebalance::{
    rebalance_applied,
    spec_check_rebalance_accounts,
    spec_rebalance_full,
    spec_rebalance_outcome,
    Rebalance,
    RebalanceOutcome,
};
use crate::vault::instructions::rebalance::pool_accounts_after;
use crate::clmm::state::pool::Pool;
use crate::clmm::state::position::Position;
use crate::clmm::state::tick::TickArray;
use crate::vault::instructions::withdraw::{spec_check_withdraw_accounts, spec_withdraw, VaultWithdraw};
use crate::vault::state::Vault;

verus! {

/// Creates a vault over `pool`; see `instructions::initialize_vault::handler`.
pub fn initialize_vault(
    vault_key: [u8; 32],
    authority: [u8; 32],
    pool: [u8; 32],
    share_mint: [u8; 32],
    token_vault_a: [u8; 32],
    token_vault_b: [u8; 32],
    rebalance_threshold_bps: u16,
    tick_range_multiplier: u8,
    performance_fee_bps: u16,
    management_fee_bps: u16,
    slot: u64,
    bump: u8,
) -> (r: Result<(Vault, VaultInitialized), VaultError>)
    ensures
        valid_vault_config(tick_range_multiplier, performance_fee_bps, management_fee_bps) <==> r is Ok,
        !valid_vault_config(tick_range_multiplier, performance_fee_bps, management_fee_bps) ==> r
            == Err::<(Vault, VaultInitialized), VaultError>(VaultError::InvalidFeeConfig),
        r matches Ok((v, event)) ==> {
            &&& is_default_key(v.active_position)
            &&& v == spec_new_vault(
                authority,
                pool,
                share_mint,
                token_vault_a,
                token_vault_b,
                rebalance_threshold_bps,
                tick_range_multiplier,
                performance_fee_bps,
                management_fee_bps,
                slot,
                bump,
                v.active_position,
            )
            &&& event == VaultInitialized {
                vault: vault_key,
                pool,
                authority,
                keeper: authority,
                rebalance_threshold_bps,
                tick_range_multiplier,
            }
        },
{
    instructions::initialize_vault::handler(
        vault_key,
        authority,
        pool,
        share_mint,
        token_vault_a,
        token_vault_b,
        rebalance_threshold_bps,
        tick_range_multiplier,
        performance_fee_bps,
        management_fee_bps,
        slot,
        bump,
    )
}

/// Deposits into the vault once its accounts check out; see
/// `instructions::deposit::handler`. On an error nothing changes.
pub fn deposit(
    accounts: &VaultDeposit,
    vault: &mut Vault,
    vault_key: [u8; 32],
    max_amount_a: u64,
    max_amount_b: u64,
) -> (r: Result<VaultDeposited, VaultError>)
    ensures
        match spec_check_deposit_accounts(*accounts, *old(vault)) {
            Err(e) => r == Err::<VaultDeposited, VaultError>(e) && *final(vault) == *old(vault),
            Ok(_) => match spec_deposit(*old(vault), vault_key, accounts.depositor, max_amount_a, max_amount_b) {
                Ok((v, event)) => r == Ok::<VaultDeposited, VaultError>(event) && *final(vault) == v,
                Err(e) => r == Err::<VaultDeposited, VaultError>(e) && *final(vault) == *old(vault),
            },
        },
{
    match accounts.validate(vault) {
        Err(e) => Err(e),
        Ok(()) => instructions::deposit::handler(vault, vault_key, accounts.depositor, max_amount_a, max_amount_b),
    }
}

/// Withdraws from the vault once its accounts check out; `user_shares` is what the
/// withdrawer's share account holds. See `instructions::withdraw::handler`. On an error
/// nothing changes.
pub fn withdraw(
    accounts: &VaultWithdraw,
    vault: &mut Vault,
    vault_key: [u8; 32],
    shares_to_burn: u64,
    user_shares: u64,
) -> (r: Result<VaultWithdrawn, VaultError>)
    ensures
        match spec_check_withdraw_accounts(*accounts, *old(vault)) {
            Err(e) => r == Err::<VaultWithdrawn, VaultError>(e) && *final(vault) == *old(vault),
            Ok(_) => match spec_withdraw(*old(vault), vault_key, accounts.withdrawer, shares_to_burn, user_shares) {
                Ok((v, event)) => r == Ok::<VaultWithdrawn, VaultError>(event) && *final(vault) == v,
                Err(e) => r == Err::<VaultWithdrawn, VaultError>(e) && *final(vault) == *old(vault),
            },
        },
{
    match accounts.validate(vault) {
        Err(e) => Err(e),
        Ok(()) => instructions::withdraw::handler(vault, vault_key, accounts.withdrawer, shares_to_burn, user_shares),
    }
}

/// Moves the vault to a new tick range once its accounts check out (only the keeper may);
/// see `instructions::rebalance::handler`. On an error nothing changes.
pub fn rebalance(
    accounts: &Rebalance,
    vault: &mut Vault,
    vault_key: [u8; 32],
    pool: &mut Pool,
    position: &mut Position,
    tick_array_lower: &mut TickArray,
    tick_array_upper: &mut TickArray,
    new_tick_array_lower: &mut TickArray,
    new_tick_array_upper: &mut TickArray,
    pool_key: [u8; 32],
    new_position_mint: [u8; 32],
    new_position_bump: u8,
    new_tick_lower: i32,
    new_tick_upper: i32,
    slot: u64,
) -> (r: Result<RebalanceOutcome, VaultError>)
    requires
        old(pool).inv(),
        old(tick_array_lower).inv(),
        old(tick_array_upper).inv(),
        old(new_tick_array_lower).inv(),
        old(new_tick_array_upper).inv(),
    ensures
        match spec_check_rebalance_accounts(*accounts, *old(vault)) {
            Err(e) => {
                &&& r == Err::<RebalanceOutcome, VaultError>(e)
                &&& *final(vault) == *old(vault)
                &&& *final(pool) == *old(pool)
                &&& *final(position) == *old(position)
                &&& *final(tick_array_lower) == *old(tick_array_lower)
                &&& *final(tick_array_upper) == *old(tick_array_upper)
                &&& *final(new_tick_array_lower) == *old(new_tick_array_lower)
                &&& *final(new_tick_array_upper) == *old(new_tick_array_upper)
            },
            Ok(_) => match spec_rebalance_full(*old(vault), vault_key, *old(pool), *old(position), *old(tick_array_lower),
                *old(tick_array_upper), *old(new_tick_array_lower), *old(new_tick_array_upper), pool_key, new_position_mint,
                new_position_bump, new_tick_lower, new_tick_upper, slot) {
                Err(e) => {
                    &&& r == Err::<RebalanceOutcome, VaultError>(e)
                    &&& *final(vault) == *old(vault)
                    &&& *final(pool) == *old(pool)
                    &&& *final(position) == *old(position)
                    &&& *final(tick_array_lower) == *old(tick_array_lower)
                    &&& *final(tick_array_upper) == *old(tick_array_upper)
                    &&& *final(new_tick_array_lower) == *old(new_tick_array_lower)
                    &&& *final(new_tick_array_upper) == *old(new_tick_array_upper)
                },
                Ok(st) => {
                    &&& r == Ok::<RebalanceOutcome, VaultError>(spec_rebalance_outcome(st))
                    &&& *final(vault) == st.vault
                    &&& rebalance_applied(*old(pool), *old(position), *old(tick_array_lower), *old(tick_array_upper),
                        *old(new_tick_array_lower), *old(new_tick_array_upper), st, *final(pool), *final(position),
                        *final(tick_array_lower), *final(tick_array_upper), *final(new_tick_array_lower), *final(new_tick_array_upper))
                },
            },
        },
        r is Ok ==> accounts.keeper == old(vault).keeper,
        r is Ok ==> final(position).liquidity == 0,
        final(vault).total_shares == old(vault).total_shares,
        final(vault).total_value_a == old(vault).total_value_a,
        final(vault).total_value_b == old(vault).total_value_b,
{
    match accounts.validate(vault) {
        Err(e) => Err(e),
        Ok(()) => instructions::rebalance::handler(
            vault,
            vault_key,
            pool,
            position,
            tick_array_lower,
            tick_array_upper,
            new_tick_array_lower,
            new_tick_array_upper,
            pool_key,
            new_position_mint,
            new_position_bump,
            new_tick_lower,
            new_tick_upper,
            slot,
        ),
    }
}

/// Compounds collected fees into the vault once its accounts check out (only the keeper
/// may); see `instructions::compound::handler`. On an error nothing changes.
pub fn compound(
    accounts: &Compound,
    vault: &mut Vault,
    vault_key: [u8; 32],
    pool: &mut Pool,
    position: &mut Position,
    tick_array_lower: &mut TickArray,
    tick_array_upper: &mut TickArray,
    pool_key: [u8; 32],
    position_key: [u8; 32],
    balance_a_before: u64,
    balance_b_before: u64,
    slot: u64,
) -> (r: Result<(VaultCompounded, Reinvested), VaultError>)
    requires
        old(pool).inv(),
        old(tick_array_lower).inv(),
        old(tick_array_upper).inv(),
        old(position).tick_lower_index - old(tick_array_lower).start_tick_index <= i32::MAX,
        old(position).tick_upper_index - old(tick_array_upper).start_tick_index <= i32::MAX,
    ensures
        match spec_check_compound_accounts(*accounts, *old(vault)) {
            Err(e) => {
                &&& r == Err::<(VaultCompounded, Reinvested), VaultError>(e)
                &&& *final(vault) == *old(vault)
                &&& pool_accounts_after(*old(pool), *old(position), *old(tick_array_lower), *old(tick_array_upper), None,
                    *final(pool), *final(position), *final(tick_array_lower), *final(tick_array_upper))
            },
            Ok(_) => match spec_compound_with_collection(*old(vault), vault_key, *old(pool), *old(position),
                *old(tick_array_lower), *old(tick_array_upper), balance_a_before, balance_b_before, slot) {
                Ok((v, event, p, change)) => {
                    &&& r matches Ok((e, re)) && e == event && (match change {
                        None => re == (Reinvested { liquidity: 0, amount_a: 0, amount_b: 0 }),
                        Some(c) => re == (Reinvested {
                            liquidity: (c.position.liquidity - p.liquidity) as u128,
                            amount_a: c.amount_a,
                            amount_b: c.amount_b,
                        }),
                    })
                    &&& *final(vault) == v
                    &&& pool_accounts_after(*old(pool), p, *old(tick_array_lower), *old(tick_array_upper), change,
                        *final(pool), *final(position), *final(tick_array_lower), *final(tick_array_upper))
                },
                Err(e) => {
                    &&& r == Err::<(VaultCompounded, Reinvested), VaultError>(e)
                    &&& *final(vault) == *old(vault)
                    &&& pool_accounts_after(*old(pool), *old(position), *old(tick_array_lower), *old(tick_array_upper), None,
                        *final(pool), *final(position), *final(tick_array_lower), *final(tick_array_upper))
                },
            },
        },
        r is Ok ==> accounts.keeper == old(vault).keeper,
        final(vault).total_shares == old(vault).total_shares,
        final(vault).total_value_a >= old(vault).total_value_a,
        final(vault).total_value_b >= old(vault).total_value_b,
{
    match accounts.validate(vault) {
        Err(e) => Err(e),
        Ok(()) => instructions::compound::handler(
            vault,
            vault_key,
            pool,
            position,
            tick_array_lower,
            tick_array_upper,
            pool_key,
            position_key,
            balance_a_before,
            balance_b_before,
            slot,
        ),
    }
}

} // verus!
