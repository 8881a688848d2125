//! The wire format in which solver engines are handed an auction.

pub mod auction;
pub mod entries;
pub mod liquidity;
