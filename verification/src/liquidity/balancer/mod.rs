//! Balancer pools, weighted and stable, and what they share.

pub mod stable;
pub mod weighted;

use crate::eth::{H160, H256, U256};
use vstd::prelude::*;

verus! {

/// A swap fee as a fixed-point number of 18 fractional digits.
#[derive(Clone, Copy, Debug, PartialEq, Eq, Structural)]
pub struct Fee {
    raw: U256,
}

impl Fee {
    /// The fixed-point digits.
    pub closed spec fn raw(self) -> U256 {
        self.raw
    }

    /// The fee with the fixed-point digits `raw`.
    pub fn from_raw(raw: U256) -> (r: Fee)
        ensures
            r.raw() == raw,
    {
        Fee { raw }
    }

    /// The fixed-point digits.
    pub fn as_raw(&self) -> (r: U256)
        ensures
            r == self.raw(),
    {
        self.raw
    }
}

/// The factor that brings a token's balance to 18 fractional digits, as a
/// fixed-point number of 18 fractional digits.
#[derive(Clone, Copy, Debug, PartialEq, Eq, Structural)]
pub struct ScalingFactor {
    raw: U256,
}

impl ScalingFactor {
    /// The fixed-point digits.
    pub closed spec fn raw(self) -> U256 {
        self.raw
    }

    /// The scaling factor with the fixed-point digits `raw`.
    pub fn from_raw(raw: U256) -> (r: ScalingFactor)
        ensures
            r.raw() == raw,
    {
        ScalingFactor { raw }
    }

    /// The fixed-point digits.
    pub fn as_raw(&self) -> (r: U256)
        ensures
            r == self.raw(),
    {
        self.raw
    }
}

/// The identifier of a pool in the vault: the pool's address in its first
/// twenty bytes, then the pool's specialization and nonce.
#[derive(Clone, Copy, Debug, PartialEq, Eq, Structural)]
pub struct Id {
    pub word: H256,
}

impl Id {
    /// The first twenty bytes of the identifier.
    pub open spec fn spec_address(self) -> H160 {
        H160 { hi: self.word.hi, lo: (self.word.lo / 0x1_0000_0000_0000_0000_0000_0000) as u32 }
    }

    /// The address of the pool.
    pub fn address(&self) -> (r: H160)
        ensures
            r == self.spec_address(),
    {
        H160 { hi: self.word.hi, lo: (self.word.lo / 0x1_0000_0000_0000_0000_0000_0000) as u32 }
    }
}

/// Reserves in which a token occurs twice.
#[derive(Clone, Copy, Debug, PartialEq, Eq, Structural)]
pub struct InvalidReserves;

} // verus!
