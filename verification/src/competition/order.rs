//! The orders of an auction.

use crate::eth::{Asset, U256};
use vstd::prelude::*;

verus! {

/// The length of an order's unique identifier in bytes.
pub const UID_LEN: usize = 56;

/// Which of the two amounts of an order is fixed.
#[derive(Clone, Copy, Debug, PartialEq, Eq, Structural)]
pub enum Side {
    Buy,
    Sell,
}

/// How an order came about and is to be treated.
#[derive(Clone, Copy, Debug, PartialEq, Eq, Structural)]
pub enum Kind {
    Market,
    Limit,
    Liquidity,
}

/// What of an order can still be traded, once fees and the owner's balance
/// are taken into account.
#[derive(Clone, Copy, Debug, PartialEq, Eq, Structural)]
pub struct Available {
    pub sell: Asset,
    pub buy: Asset,
    pub user_fee: U256,
}

/// An order of the auction.
#[derive(Clone, Copy, Debug)]
pub struct Order {
    pub uid: [u8; 56],
    pub side: Side,
    /// Whether the order may be filled in parts.
    pub partial: bool,
    pub kind: Kind,
    /// The amounts that are open for trade, as the order book worked them
    /// out against the wrapped native token.
    pub available: Available,
}

impl Order {
    /// Whether the order may be filled in parts.
    pub fn is_partial(&self) -> (r: bool)
        ensures
            r == self.partial,
    {
        self.partial
    }
}

} // verus!
