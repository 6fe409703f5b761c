use vstd::prelude::*;

use crate::clmm::math::sqrt_price_math::{lemma_low_u64, low_u64};
use crate::keys::same_key;
use crate::vault::errors::VaultError;
use crate::vault::events::VaultDeposited;
use crate::vault::state::vault::{lemma_deposit_keeps_share_value, spec_after_deposit, spec_shares_to_mint, Vault};

verus! {

/// Addresses of the accounts a deposit is given, as far as the vault checks them.
#[derive(Debug, Clone, Copy, PartialEq, Eq)]
pub struct VaultDeposit {
    /// The share mint
    pub share_mint: [u8; 32],
    /// The vault's token A account
    pub token_vault_a: [u8; 32],
    /// The vault's token B account
    pub token_vault_b: [u8; 32],
    /// The signer
    pub depositor: [u8; 32],
}

/// The share mint and the token accounts must be the vault's own.
pub open spec fn spec_check_deposit_accounts(accounts: VaultDeposit, v: Vault) -> Result<(), VaultError> {
    if accounts.share_mint != v.share_mint || accounts.token_vault_a != v.token_vault_a
        || accounts.token_vault_b != v.token_vault_b {
        Err(VaultError::UnauthorizedAuthority)
    } else {
        Ok(())
    }
}

impl VaultDeposit {
    /// Checks that these accounts may deposit into `vault`.
    pub fn validate(&self, vault: &Vault) -> (r: Result<(), VaultError>)
        ensures
            r == spec_check_deposit_accounts(*self, *vault),
    {
        if !same_key(&self.share_mint, &vault.share_mint) {
            return Err(VaultError::UnauthorizedAuthority);
        }
        if !same_key(&self.token_vault_a, &vault.token_vault_a) {
            return Err(VaultError::UnauthorizedAuthority);
        }
        if !same_key(&self.token_vault_b, &vault.token_vault_b) {
            return Err(VaultError::UnauthorizedAuthority);
        }
        Ok(())
    }
}

/// Value of one share, scaled by `1_000_000`: `(total_value_a + total_value_b) * 1e6 /
/// total_shares` rounded down and cut to 64 bits, or `1_000_000` when there are no shares.
pub open spec fn spec_share_price(v: Vault) -> u64 {
    if v.total_shares > 0 {
        low_u64(((v.total_value_a + v.total_value_b) * 1_000_000) / (v.total_shares as int))
    } else {
        1_000_000
    }
}

/// What a deposit of `(max_amount_a, max_amount_b)` does: the vault afterwards and the
/// event, or the error that refuses it.
pub open spec fn spec_deposit(
    v: Vault,
    vault_key: [u8; 32],
    depositor: [u8; 32],
    max_amount_a: u64,
    max_amount_b: u64,
) -> Result<(Vault, VaultDeposited), VaultError> {
    let shares = spec_shares_to_mint(v, max_amount_a, max_amount_b);
    if max_amount_a == 0 && max_amount_b == 0 {
        Err(VaultError::ZeroDeposit)
    } else if v.paused {
        Err(VaultError::VaultPaused)
    } else if shares == 0 {
        Err(VaultError::ZeroDeposit)
    } else if v.total_shares + shares > u64::MAX || v.total_value_a + max_amount_a > u64::MAX
        || v.total_value_b + max_amount_b > u64::MAX {
        Err(VaultError::MathOverflow)
    } else {
        let after = spec_after_deposit(v, max_amount_a, max_amount_b, shares);
        Ok(
            (
                after,
                VaultDeposited {
                    vault: vault_key,
                    user: depositor,
                    amount_a: max_amount_a,
                    amount_b: max_amount_b,
                    shares_minted: shares,
                    share_price: spec_share_price(after),
                },
            ),
        )
    }
}

/// Takes `(max_amount_a, max_amount_b)` into the vault and mints the depositor its
/// shares; the event records them. On an error nothing changes.
pub fn handler(
    vault: &mut Vault,
    vault_key: [u8; 32],
    depositor: [u8; 32],
    max_amount_a: u64,
    max_amount_b: u64,
) -> (r: Result<VaultDeposited, VaultError>)
    ensures
        match spec_deposit(*old(vault), vault_key, depositor, max_amount_a, max_amount_b) {
            Ok((v, event)) => r == Ok::<VaultDeposited, VaultError>(event) && *final(vault) == v,
            Err(e) => r == Err::<VaultDeposited, VaultError>(e) && *final(vault) == *old(vault),
        },
{
    if !(max_amount_a > 0 || max_amount_b > 0) {
        return Err(VaultError::ZeroDeposit);
    }
    if vault.paused {
        return Err(VaultError::VaultPaused);
    }

    // Calculate shares to mint
    let shares_to_mint = vault.calculate_shares_to_mint(max_amount_a, max_amount_b);
    if shares_to_mint == 0 {
        return Err(VaultError::ZeroDeposit);
    }

    // Update vault state
    let total_shares = match vault.total_shares.checked_add(shares_to_mint) {
        Some(t) => t,
        None => {
            return Err(VaultError::MathOverflow);
        },
    };
    let total_value_a = match vault.total_value_a.checked_add(max_amount_a) {
        Some(t) => t,
        None => {
            return Err(VaultError::MathOverflow);
        },
    };
    let total_value_b = match vault.total_value_b.checked_add(max_amount_b) {
        Some(t) => t,
        None => {
            return Err(VaultError::MathOverflow);
        },
    };
    vault.total_shares = total_shares;
    vault.total_value_a = total_value_a;
    vault.total_value_b = total_value_b;

    let share_price = if vault.total_shares > 0 {
        let price = (vault.total_value_a as u128 + vault.total_value_b as u128) * 1_000_000
            / vault.total_shares as u128;
        proof {
            lemma_low_u64(price);
        }
        price as u64
    } else {
        1_000_000
    };

    Ok(
        VaultDeposited {
            vault: vault_key,
            user: depositor,
            amount_a: max_amount_a,
            amount_b: max_amount_b,
            shares_minted: shares_to_mint,
            share_price,
        },
    )
}

/// A deposit into a vault that already has shares never lowers what a share holds of
/// either side (`A / T`, compared cross-multiplied).
pub proof fn lemma_deposit_never_dilutes(
    v: Vault,
    vault_key: [u8; 32],
    depositor: [u8; 32],
    max_amount_a: u64,
    max_amount_b: u64,
)
    requires
        v.total_shares > 0,
        spec_deposit(v, vault_key, depositor, max_amount_a, max_amount_b) is Ok,
    ensures
        ({
            let after = spec_deposit(v, vault_key, depositor, max_amount_a, max_amount_b)->Ok_0.0;
            &&& after.total_value_a * v.total_shares >= v.total_value_a * after.total_shares
            &&& after.total_value_b * v.total_shares >= v.total_value_b * after.total_shares
        }),
{
    lemma_deposit_keeps_share_value(v, max_amount_a, max_amount_b);
}

/// The price a deposit reports is the vault's share price after it: the deposit's amounts
/// added to the vault's holdings, times `1_000_000`, over all shares including the ones it
/// minted (rounded down, cut to 64 bits). It also records the amounts taken and the shares
/// minted, and the vault's totals grow by exactly those.
pub proof fn lemma_deposit_reports_the_vault_share_price(
    v: Vault,
    vault_key: [u8; 32],
    depositor: [u8; 32],
    max_amount_a: u64,
    max_amount_b: u64,
)
    ensures
        spec_deposit(v, vault_key, depositor, max_amount_a, max_amount_b) matches Ok((after, event)) ==> {
            &&& event.shares_minted > 0
            &&& event.amount_a == max_amount_a && event.amount_b == max_amount_b
            &&& after.total_shares == v.total_shares + event.shares_minted
            &&& after.total_value_a == v.total_value_a + max_amount_a
            &&& after.total_value_b == v.total_value_b + max_amount_b
            &&& event.share_price as int == (((v.total_value_a + max_amount_a + v.total_value_b + max_amount_b) * 1_000_000)
                / (v.total_shares + event.shares_minted)) % 0x1_0000_0000_0000_0000
        },
{
}

} // verus!
