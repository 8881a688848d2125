//! Swapr pools: constant-product pools with a fee of their own.

use crate::liquidity::uniswap::v2;
use vstd::prelude::*;

verus! {

/// A pool fee in basis points.
#[derive(Clone, Copy, Debug, PartialEq, Eq, Structural)]
pub struct Fee {
    pub bps: u32,
}

impl Fee {
    /// The fee in basis points.
    pub fn bps(&self) -> (r: u32)
        ensures
            r == self.bps,
    {
        self.bps
    }
}

/// A constant-product pool that charges `fee` on each swap.
#[derive(Debug)]
pub struct Pool {
    pub base: v2::Pool,
    pub fee: Fee,
}

} // verus!
