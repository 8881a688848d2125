//! Limit orders of the 0x protocol, which no solver engine is offered yet.

use vstd::prelude::*;

verus! {

/// A foreign limit order. It stands for liquidity that cannot be encoded.
#[derive(Clone, Copy, Debug, PartialEq, Eq, Structural)]
pub struct LimitOrder;

} // verus!
