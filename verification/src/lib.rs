//! Conversion between the driver's liquidity model and the wire format of
//! solver engines, and the decisions of the gas estimation endpoint.

pub mod arith;
pub mod competition;
pub mod decimal;
pub mod dto;
pub mod eth;
pub mod fixed_point;
pub mod gas;
pub mod hex;
pub mod liquidity;
