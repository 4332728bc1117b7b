//! The failures a pool operation can report. Errors are values, never
//! panics: every fallible operation returns one of these explicitly.

use vstd::prelude::*;

verus! {

/// Every way a pool operation can fail.
#[derive(Debug, PartialEq, Eq, Structural)]
pub enum Errors {
    /// Construction was given a zero price.
    InvalidPrice,
    /// Construction was given a minimum fee at or above the maximum fee.
    InvalidFee,
    /// Construction was given a zero liquidity target.
    InvalidLiquidityTarget,
    /// A zero-amount deposit was attempted.
    InvalidDeposit,
    /// A zero-amount swap was attempted.
    InvalidSwapAmount,
    /// A zero or over-balance withdrawal was attempted.
    InvalidLpTokenToRemove,
    /// The swap exceeds what the pool can satisfy even at the maximum fee;
    /// carries the largest staked amount that would succeed.
    ToBigSwap(u64),
}

} // verus!
