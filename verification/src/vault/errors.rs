use vstd::prelude::*;

use crate::clmm::errors::TidePoolError;

verus! {

/// Errors of the rebalancing vault.
#[derive(Debug, Clone, Copy, PartialEq, Eq, Structural)]
pub enum VaultError {
    /// Deposit amounts must be greater than zero
    ZeroDeposit,
    /// Insufficient shares for withdrawal
    InsufficientShares,
    /// Vault has no active position to rebalance
    NoActivePosition,
    /// Position is still in range — rebalance not needed
    RebalanceNotNeeded,
    /// Only the vault keeper can perform this action
    UnauthorizedKeeper,
    /// Only the vault authority can perform this action
    UnauthorizedAuthority,
    /// Invalid fee configuration
    InvalidFeeConfig,
    /// Invalid tick range for rebalance
    InvalidTickRange,
    /// Arithmetic overflow
    MathOverflow,
    /// Vault is paused
    VaultPaused,
    /// No fees to compound
    NoFeesToCompound,
    /// Vault total shares must be non-zero for withdrawal
    NoShares,
    /// The pool refused the vault's request
    Clmm(TidePoolError),
}

} // verus!
