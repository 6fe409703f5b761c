use vstd::prelude::*;

verus! {

/// Why the keeper could not read an account.
#[derive(Debug, Clone, Copy, PartialEq, Eq, Structural)]
pub enum KeeperError {
    /// The vault account is shorter than its 8-byte discriminator (or, for the metrics,
    /// than the accounting section)
    InvalidVaultAccountData,
    /// The vault data after the discriminator is too short
    VaultDataTooShort,
    /// The pool account is shorter than its 8-byte discriminator
    InvalidPoolAccountData,
    /// The pool data after the discriminator is too short
    PoolDataTooShort,
}

} // verus!
