//! Decision logic of the off-chain keeper: reading vault and pool accounts and
//! deciding when and where to move the vault's range.
pub mod decode;
pub mod errors;
pub mod indexer;
pub mod rebalancer;
