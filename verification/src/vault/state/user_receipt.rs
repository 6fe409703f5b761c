use vstd::prelude::*;

verus! {

/// A depositor's record of what it put into a vault.
#[derive(Debug, Clone, Copy, PartialEq, Eq)]
pub struct UserReceipt {
    pub vault: [u8; 32],
    pub owner: [u8; 32],
    pub shares: u64,
    pub deposited_a: u64,
    pub deposited_b: u64,
    pub deposit_timestamp: i64,
    pub bump: u8,
}

} // verus!
