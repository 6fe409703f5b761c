//! Verified core of a concentrated-liquidity AMM and an auto-rebalancing vault
//! built on top of it, together with the decision logic of the off-chain keeper.
pub mod clmm;
pub mod keeper;
pub mod keys;
pub mod vault;
