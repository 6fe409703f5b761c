use vstd::prelude::*;

use crate::clmm::errors::TidePoolError;
use crate::clmm::events::ProtocolFeesCollected;
use crate::keys::same_key;
use crate::clmm::state::pool::Pool;

verus! {

/// Addresses of the accounts that collecting protocol fees is given, as far as the pool
/// checks them.
#[derive(Debug, Clone, Copy, PartialEq, Eq)]
pub struct CollectProtocolFees {
    /// The pool's token A account
    pub token_vault_a: [u8; 32],
    /// The pool's token B account
    pub token_vault_b: [u8; 32],
    /// The signer
    pub authority: [u8; 32],
}

/// The pool's checks on the accounts that collect its protocol fees: only its authority
/// may sign, and the token accounts must be the pool's.
pub open spec fn spec_check_collect_protocol_fees_accounts(accounts: CollectProtocolFees, pool: Pool) -> Result<
    (),
    TidePoolError,
> {
    if pool.authority != accounts.authority || accounts.token_vault_a != pool.token_vault_a
        || accounts.token_vault_b != pool.token_vault_b {
        Err(TidePoolError::Unauthorized)
    } else {
        Ok(())
    }
}

impl CollectProtocolFees {
    /// Checks that these accounts may collect the protocol fees of `pool`.
    pub fn validate(&self, pool: &Pool) -> (r: Result<(), TidePoolError>)
        ensures
            r == spec_check_collect_protocol_fees_accounts(*self, *pool),
            r is Ok ==> pool.authority == self.authority,
    {
        if !same_key(&pool.authority, &self.authority) {
            return Err(TidePoolError::Unauthorized);
        }
        if !same_key(&self.token_vault_a, &pool.token_vault_a) {
            return Err(TidePoolError::Unauthorized);
        }
        if !same_key(&self.token_vault_b, &pool.token_vault_b) {
            return Err(TidePoolError::Unauthorized);
        }
        Ok(())
    }
}

/// Collects the protocol fees the pool holds: the result holds the amounts to pay out,
/// and the pool owes nothing afterwards. On an error nothing changes.
pub fn handler(pool: &mut Pool, pool_key: [u8; 32]) -> (r: Result<ProtocolFeesCollected, TidePoolError>)
    ensures
        old(pool).protocol_fees_owed_a == 0 && old(pool).protocol_fees_owed_b == 0 ==> (
            r == Err::<ProtocolFeesCollected, TidePoolError>(TidePoolError::NoFeesToCollect) && *final(pool) == *old(pool)),
        !(old(pool).protocol_fees_owed_a == 0 && old(pool).protocol_fees_owed_b == 0) ==> (
            r == Ok::<ProtocolFeesCollected, TidePoolError>(ProtocolFeesCollected {
                pool: pool_key,
                amount_a: old(pool).protocol_fees_owed_a,
                amount_b: old(pool).protocol_fees_owed_b,
            })
            && *final(pool) == (Pool { protocol_fees_owed_a: 0, protocol_fees_owed_b: 0, ..*old(pool) })),
{
    let fees_a = pool.protocol_fees_owed_a;
    let fees_b = pool.protocol_fees_owed_b;

    if !(fees_a > 0 || fees_b > 0) {
        return Err(TidePoolError::NoFeesToCollect);
    }

    pool.protocol_fees_owed_a = 0;
    pool.protocol_fees_owed_b = 0;

    Ok(ProtocolFeesCollected { pool: pool_key, amount_a: fees_a, amount_b: fees_b })
}

} // verus!
