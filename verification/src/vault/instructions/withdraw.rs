use vstd::prelude::*;

use crate::keys::same_key;
use crate::vault::errors::VaultError;
use crate::vault::events::VaultWithdrawn;
use crate::vault::instructions::deposit::spec_deposit;
use crate::vault::state::vault::{
    lemma_deposit_does_not_dilute, lemma_withdraw_all_shares, lemma_withdraw_keeps_share_value, lemma_withdrawal_within_totals, spec_withdrawal_amounts, Vault,
};

verus! {

/// Addresses of the accounts a withdrawal is given, as far as the vault checks them.
#[derive(Debug, Clone, Copy, PartialEq, Eq)]
pub struct VaultWithdraw {
    /// The share mint
    pub share_mint: [u8; 32],
    /// The vault's token A account
    pub token_vault_a: [u8; 32],
    /// The vault's token B account
    pub token_vault_b: [u8; 32],
    /// The signer
    pub withdrawer: [u8; 32],
}

/// The share mint and the token accounts must be the vault's own.
pub open spec fn spec_check_withdraw_accounts(accounts: VaultWithdraw, v: Vault) -> Result<(), VaultError> {
    if accounts.share_mint != v.share_mint || accounts.token_vault_a != v.token_vault_a
        || accounts.token_vault_b != v.token_vault_b {
        Err(VaultError::UnauthorizedAuthority)
    } else {
        Ok(())
    }
}

impl VaultWithdraw {
    /// Checks that these accounts may withdraw from `vault`.
    pub fn validate(&self, vault: &Vault) -> (r: Result<(), VaultError>)
        ensures
            r == spec_check_withdraw_accounts(*self, *vault),
    {
        if !same_key(&self.share_mint, &vault.share_mint) {
            return Err(VaultError::UnauthorizedAuthority);
        }
        if !same_key(&self.token_vault_a, &vault.token_vault_a) {
            return Err(VaultError::UnauthorizedAuthority);
        }
        if !same_key(&self.token_vault_b, &vault.token_vault_b) {
            return Err(VaultError::UnauthorizedAuthority);
        }
        Ok(())
    }
}

/// What burning `shares_to_burn` of a holder with `user_shares` shares does: the vault
/// afterwards and the event, or the error that refuses it.
pub open spec fn spec_withdraw(
    v: Vault,
    vault_key: [u8; 32],
    withdrawer: [u8; 32],
    shares_to_burn: u64,
    user_shares: u64,
) -> Result<(Vault, VaultWithdrawn), VaultError> {
    let (amount_a, amount_b) = spec_withdrawal_amounts(v, shares_to_burn);
    if shares_to_burn == 0 {
        Err(VaultError::InsufficientShares)
    } else if v.total_shares == 0 {
        Err(VaultError::NoShares)
    } else if shares_to_burn > user_shares {
        Err(VaultError::InsufficientShares)
    } else if shares_to_burn > v.total_shares || amount_a > v.total_value_a || amount_b > v.total_value_b {
        Err(VaultError::MathOverflow)
    } else {
        Ok(
            (
                Vault {
                    total_shares: (v.total_shares - shares_to_burn) as u64,
                    total_value_a: (v.total_value_a - amount_a) as u64,
                    total_value_b: (v.total_value_b - amount_b) as u64,
                    ..v
                },
                VaultWithdrawn {
                    vault: vault_key,
                    user: withdrawer,
                    shares_burned: shares_to_burn,
                    amount_a,
                    amount_b,
                },
            ),
        )
    }
}

/// Burns `shares_to_burn` of the withdrawer's `user_shares` shares and pays out their
/// part of the vault; the event records the amounts. On an error nothing changes.
pub fn handler(
    vault: &mut Vault,
    vault_key: [u8; 32],
    withdrawer: [u8; 32],
    shares_to_burn: u64,
    user_shares: u64,
) -> (r: Result<VaultWithdrawn, VaultError>)
    ensures
        match spec_withdraw(*old(vault), vault_key, withdrawer, shares_to_burn, user_shares) {
            Ok((v, event)) => r == Ok::<VaultWithdrawn, VaultError>(event) && *final(vault) == v,
            Err(e) => r == Err::<VaultWithdrawn, VaultError>(e) && *final(vault) == *old(vault),
        },
{
    if !(shares_to_burn > 0) {
        return Err(VaultError::InsufficientShares);
    }
    if !(vault.total_shares > 0) {
        return Err(VaultError::NoShares);
    }
    if !(shares_to_burn <= user_shares) {
        return Err(VaultError::InsufficientShares);
    }

    // Calculate proportional token amounts
    let (amount_a, amount_b) = vault.calculate_withdrawal_amounts(shares_to_burn);

    // Update vault state
    let total_shares = match vault.total_shares.checked_sub(shares_to_burn) {
        Some(t) => t,
        None => {
            return Err(VaultError::MathOverflow);
        },
    };
    let total_value_a = match vault.total_value_a.checked_sub(amount_a) {
        Some(t) => t,
        None => {
            return Err(VaultError::MathOverflow);
        },
    };
    let total_value_b = match vault.total_value_b.checked_sub(amount_b) {
        Some(t) => t,
        None => {
            return Err(VaultError::MathOverflow);
        },
    };
    vault.total_shares = total_shares;
    vault.total_value_a = total_value_a;
    vault.total_value_b = total_value_b;

    Ok(
        VaultWithdrawn {
            vault: vault_key,
            user: withdrawer,
            shares_burned: shares_to_burn,
            amount_a,
            amount_b,
        },
    )
}

/// Depositing and then burning the shares that deposit minted succeeds, pays out no
/// more than was deposited on either side, and leaves the other holders at least what
/// they had: the share count returns to what it was and neither side shrinks.
pub proof fn lemma_deposit_then_withdraw(
    v: Vault,
    vault_key: [u8; 32],
    user: [u8; 32],
    amount_a: u64,
    amount_b: u64,
    user_shares: u64,
)
    requires
        v.total_shares > 0 || (v.total_value_a == 0 && v.total_value_b == 0),
        spec_deposit(v, vault_key, user, amount_a, amount_b) is Ok,
        user_shares >= spec_deposit(v, vault_key, user, amount_a, amount_b)->Ok_0.1.shares_minted,
    ensures
        ({
            let (after_deposit, deposited) = spec_deposit(v, vault_key, user, amount_a, amount_b)->Ok_0;
            let w = spec_withdraw(after_deposit, vault_key, user, deposited.shares_minted, user_shares);
            &&& w is Ok
            &&& w->Ok_0.1.amount_a <= amount_a
            &&& w->Ok_0.1.amount_b <= amount_b
            &&& w->Ok_0.0.total_shares == v.total_shares
            &&& w->Ok_0.0.total_value_a >= v.total_value_a
            &&& w->Ok_0.0.total_value_b >= v.total_value_b
        }),
{
    let (after_deposit, deposited) = spec_deposit(v, vault_key, user, amount_a, amount_b)->Ok_0;
    lemma_deposit_does_not_dilute(v, amount_a, amount_b);
    lemma_withdrawal_within_totals(after_deposit, deposited.shares_minted);
}

/// Burning every share pays out everything the vault holds and leaves it empty.
pub proof fn lemma_withdraw_everything(v: Vault, vault_key: [u8; 32], user: [u8; 32], user_shares: u64)
    requires
        v.total_shares > 0,
        user_shares >= v.total_shares,
    ensures
        ({
            let w = spec_withdraw(v, vault_key, user, v.total_shares, user_shares);
            &&& w is Ok
            &&& w->Ok_0.1.amount_a == v.total_value_a
            &&& w->Ok_0.1.amount_b == v.total_value_b
            &&& w->Ok_0.0.total_shares == 0
            &&& w->Ok_0.0.total_value_a == 0
            &&& w->Ok_0.0.total_value_b == 0
        }),
{
    lemma_withdraw_all_shares(v);
}

/// A withdrawal never lowers what each remaining share holds of either side (`A / T`,
/// compared cross-multiplied).
pub proof fn lemma_withdraw_never_dilutes(
    v: Vault,
    vault_key: [u8; 32],
    withdrawer: [u8; 32],
    shares_to_burn: u64,
    user_shares: u64,
)
    requires
        spec_withdraw(v, vault_key, withdrawer, shares_to_burn, user_shares) is Ok,
    ensures
        ({
            let after = spec_withdraw(v, vault_key, withdrawer, shares_to_burn, user_shares)->Ok_0.0;
            &&& after.total_value_a * v.total_shares >= v.total_value_a * after.total_shares
            &&& after.total_value_b * v.total_shares >= v.total_value_b * after.total_shares
        }),
{
    lemma_withdraw_keeps_share_value(v, shares_to_burn);
}

} // verus!
