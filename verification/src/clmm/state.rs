pub mod pool;
pub mod position;
pub mod tick;

pub use pool::Pool;
pub use position::Position;
pub use tick::{Tick, TickArray};
