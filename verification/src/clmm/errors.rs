use vstd::prelude::*;

verus! {

/// Errors of the concentrated-liquidity AMM.
#[derive(Debug, Clone, Copy, PartialEq, Eq, Structural)]
pub enum TidePoolError {
    /// Invalid tick spacing value
    InvalidTickSpacing,
    /// Tick index out of supported range
    TickOutOfRange,
    /// Tick index not aligned to tick spacing
    TickNotAligned,
    /// Tick lower must be less than tick upper
    InvalidTickRange,
    /// Sqrt price out of bounds
    SqrtPriceOutOfBounds,
    /// Liquidity amount must be greater than zero
    ZeroLiquidity,
    /// Insufficient token amount for desired liquidity
    InsufficientTokenAmount,
    /// Token amount exceeds maximum specified
    TokenMaxExceeded,
    /// Token amount below minimum specified
    TokenMinNotMet,
    /// Swap amount must be greater than zero
    ZeroSwapAmount,
    /// Sqrt price limit reached during swap
    SqrtPriceLimitReached,
    /// No liquidity available in the current range
    NoLiquidity,
    /// Overflow during arithmetic operation
    MathOverflow,
    /// Division by zero
    DivisionByZero,
    /// Invalid tick array for the current swap direction
    InvalidTickArray,
    /// Tick array start index does not match expected
    TickArrayMismatch,
    /// Position has no fees to collect
    NoFeesToCollect,
    /// Unauthorized: only pool authority can perform this action
    Unauthorized,
    /// Pool is currently paused
    PoolPaused,
    /// Invalid fee rate — must be between 1 and 10000
    InvalidFeeRate,
    /// Position not empty — remove liquidity before closing
    PositionNotEmpty,
    /// Slippage tolerance exceeded
    SlippageExceeded,
}

} // verus!
