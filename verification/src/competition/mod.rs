//! The auction that the driver competes in, as the driver holds it.

pub mod order;

use crate::eth::{H160, U256};
use vstd::prelude::*;

verus! {

/// A point in time: seconds since the start of 1970 in UTC, and the
/// nanoseconds into that second.
#[derive(Clone, Copy, Debug, PartialEq, Eq, Structural)]
pub struct Timestamp {
    pub seconds: i64,
    pub nanos: u32,
}

/// What the driver knows of a token.
#[derive(Debug)]
pub struct Token {
    pub address: H160,
    pub decimals: Option<u8>,
    pub symbol: Option<String>,
    /// The price of the token in the native token.
    pub price: Option<U256>,
    /// How much of the token the settlement contract holds.
    pub available_balance: U256,
    /// Whether the contract may hold the token between settlements.
    pub trusted: bool,
}

/// An auction: the orders to settle, the tokens they trade, and the terms of
/// the competition.
#[derive(Debug)]
pub struct Auction {
    /// The auction's number. Quotes have none.
    pub id: Option<i64>,
    pub tokens: Vec<Token>,
    pub orders: Vec<order::Order>,
    /// The gas price that a settlement is expected to pay.
    pub effective_gas_price: U256,
    /// When solvers have to answer by.
    pub deadline: Timestamp,
}

} // verus!
