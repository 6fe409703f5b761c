use vstd::prelude::*;

use crate::vault::errors::VaultError;
use crate::vault::events::VaultInitialized;
use crate::vault::state::Vault;

verus! {

/// Highest performance fee a vault may charge, in basis points (30%).
pub const MAX_PERFORMANCE_FEE_BPS: u16 = 3000;

/// Highest management fee a vault may charge, in basis points (5%).
pub const MAX_MANAGEMENT_FEE_BPS: u16 = 500;

/// Largest tick range multiplier.
pub const MAX_TICK_RANGE_MULTIPLIER: u8 = 100;

/// Slippage bound a new vault starts with, in basis points (1%).
pub const DEFAULT_MAX_SLIPPAGE_BPS: u16 = 100;

/// The configuration is acceptable: fees within their caps and a multiplier in `1..=100`.
pub open spec fn valid_vault_config(
    tick_range_multiplier: u8,
    performance_fee_bps: u16,
    management_fee_bps: u16,
) -> bool {
    &&& performance_fee_bps <= MAX_PERFORMANCE_FEE_BPS
    &&& management_fee_bps <= MAX_MANAGEMENT_FEE_BPS
    &&& 0 < tick_range_multiplier <= MAX_TICK_RANGE_MULTIPLIER
}

/// The all-zero address, which marks "no account".
pub open spec fn is_default_key(k: [u8; 32]) -> bool {
    forall|i: int| 0 <= i < 32 ==> k[i] == 0
}

/// The vault a successful initialization creates: the authority is also the first
/// keeper, nothing is deposited and no position is open.
pub open spec fn spec_new_vault(
    authority: [u8; 32],
    pool: [u8; 32],
    share_mint: [u8; 32],
    token_vault_a: [u8; 32],
    token_vault_b: [u8; 32],
    rebalance_threshold_bps: u16,
    tick_range_multiplier: u8,
    performance_fee_bps: u16,
    management_fee_bps: u16,
    slot: u64,
    bump: u8,
    active_position: [u8; 32],
) -> Vault {
    Vault {
        authority,
        keeper: authority,
        pool,
        share_mint,
        token_vault_a,
        token_vault_b,
        active_position,
        active_tick_lower: 0,
        active_tick_upper: 0,
        has_active_position: false,
        rebalance_threshold_bps,
        tick_range_multiplier,
        max_slippage_bps: DEFAULT_MAX_SLIPPAGE_BPS,
        total_shares: 0,
        total_value_a: 0,
        total_value_b: 0,
        total_fees_earned_a: 0,
        total_fees_earned_b: 0,
        last_rebalance_slot: slot,
        last_compound_slot: slot,
        rebalance_count: 0,
        performance_fee_bps,
        management_fee_bps,
        paused: false,
        bump,
    }
}

/// Creates a vault over `pool` at `slot`; refuses a configuration that breaks a cap.
pub fn handler(
    vault_key: [u8; 32],
    authority: [u8; 32],
    pool: [u8; 32],
    share_mint: [u8; 32],
    token_vault_a: [u8; 32],
    token_vault_b: [u8; 32],
    rebalance_threshold_bps: u16,
    tick_range_multiplier: u8,
    performance_fee_bps: u16,
    management_fee_bps: u16,
    slot: u64,
    bump: u8,
) -> (r: Result<(Vault, VaultInitialized), VaultError>)
    ensures
        valid_vault_config(tick_range_multiplier, performance_fee_bps, management_fee_bps) <==> r is Ok,
        !valid_vault_config(tick_range_multiplier, performance_fee_bps, management_fee_bps) ==> r
            == Err::<(Vault, VaultInitialized), VaultError>(VaultError::InvalidFeeConfig),
        r matches Ok((v, event)) ==> {
            &&& is_default_key(v.active_position)
            &&& v == spec_new_vault(
                authority,
                pool,
                share_mint,
                token_vault_a,
                token_vault_b,
                rebalance_threshold_bps,
                tick_range_multiplier,
                performance_fee_bps,
                management_fee_bps,
                slot,
                bump,
                v.active_position,
            )
            &&& event == VaultInitialized {
                vault: vault_key,
                pool,
                authority,
                keeper: authority,
                rebalance_threshold_bps,
                tick_range_multiplier,
            }
        },
{
    if performance_fee_bps > MAX_PERFORMANCE_FEE_BPS {
        return Err(VaultError::InvalidFeeConfig);
    }
    if management_fee_bps > MAX_MANAGEMENT_FEE_BPS {
        return Err(VaultError::InvalidFeeConfig);
    }
    if !(tick_range_multiplier > 0 && tick_range_multiplier <= MAX_TICK_RANGE_MULTIPLIER) {
        return Err(VaultError::InvalidFeeConfig);
    }

    let vault = Vault {
        authority,
        // Initially, authority is also keeper
        keeper: authority,
        pool,
        share_mint,
        token_vault_a,
        token_vault_b,
        active_position: [0u8; 32],
        active_tick_lower: 0,
        active_tick_upper: 0,
        has_active_position: false,
        rebalance_threshold_bps,
        tick_range_multiplier,
        max_slippage_bps: DEFAULT_MAX_SLIPPAGE_BPS,
        total_shares: 0,
        total_value_a: 0,
        total_value_b: 0,
        total_fees_earned_a: 0,
        total_fees_earned_b: 0,
        last_rebalance_slot: slot,
        last_compound_slot: slot,
        rebalance_count: 0,
        performance_fee_bps,
        management_fee_bps,
        paused: false,
        bump,
    };
    let event = VaultInitialized {
        vault: vault_key,
        pool,
        authority,
        keeper: authority,
        rebalance_threshold_bps,
        tick_range_multiplier,
    };
    Ok((vault, event))
}

} // verus!
