//! Uniswap pools, constant-product and concentrated.

pub mod v2;
pub mod v3;
