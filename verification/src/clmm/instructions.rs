pub mod add_liquidity;
pub mod collect_fees;
pub mod collect_protocol_fees;
pub mod initialize_pool;
pub mod initialize_tick_array;
pub mod open_position;
pub mod remove_liquidity;
pub mod swap;
