//! Concentrated-liquidity AMM: Q64.64 math, tick/position/pool state and the
//! state transitions of each instruction.
pub mod errors;
pub mod events;
pub mod instructions;
pub mod math;
pub mod state;
