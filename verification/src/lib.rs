//! A single-sided liquidity pool for a staked-token/base-token pair.
//!
//! The pool prices swaps between a staked asset and its underlying base
//! asset and tracks proportional ownership through an LP token. All of its
//! accounting is fixed-point integer arithmetic at a scale of 1,000,000,
//! carried out by the two primitives in [`calc`]; the state machine itself
//! lives in [`pool`].

pub mod calc;
pub mod errors;
pub mod pool;
