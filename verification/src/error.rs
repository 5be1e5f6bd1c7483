use vstd::prelude::*;

verus! {

/// Errors that the pool instructions report.
#[derive(Debug, Clone, Copy, PartialEq, Eq, Structural)]
pub enum ErrorCode {
    /// A deposit or withdrawal named an amount of zero.
    ZeroAmount,
    /// A reserve or supply update left the range of its field.
    MathOverflow,
    /// The instruction would mint or pay out nothing, or the pool holds no liquidity.
    InsufficientLiquidityMinted,
}

} // verus!
