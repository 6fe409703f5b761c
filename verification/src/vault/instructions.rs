pub mod compound;
pub mod deposit;
pub mod initialize_vault;
pub mod rebalance;
pub mod withdraw;
