//! Weighted-product pools.

use crate::eth::{Asset, H160, U256};
use crate::liquidity::balancer::{Fee, Id, InvalidReserves, ScalingFactor};
use crate::liquidity::{all_distinct, distinct};
use vstd::prelude::*;

verus! {

/// The share of a token in a pool's value, as a fixed-point number of 18
/// fractional digits.
#[derive(Clone, Copy, Debug, PartialEq, Eq, Structural)]
pub struct Weight {
    raw: U256,
}

impl Weight {
    /// The fixed-point digits.
    pub closed spec fn raw(self) -> U256 {
        self.raw
    }

    /// The weight with the fixed-point digits `raw`.
    pub fn from_raw(raw: U256) -> (r: Weight)
        ensures
            r.raw() == raw,
    {
        Weight { raw }
    }

    /// The fixed-point digits.
    pub fn as_raw(&self) -> (r: U256)
        ensures
            r == self.raw(),
    {
        self.raw
    }
}

/// What a pool holds of one token.
#[derive(Clone, Copy, Debug, PartialEq, Eq, Structural)]
pub struct Reserve {
    pub asset: Asset,
    pub weight: Weight,
    pub scale: ScalingFactor,
}

/// The reserves of a pool, in the pool's order. No token occurs twice.
#[derive(Debug)]
pub struct Reserves {
    reserves: Vec<Reserve>,
}

/// The tokens of `reserves`, in order.
pub open spec fn tokens_of(reserves: Seq<Reserve>) -> Seq<H160> {
    Seq::new(reserves.len(), |i: int| reserves[i].asset.token)
}

impl Reserves {
    #[verifier::type_invariant]
    pub closed spec fn wf(self) -> bool {
        distinct(tokens_of(self.reserves@))
    }

    /// The reserves, in order.
    pub closed spec fn reserves(self) -> Seq<Reserve> {
        self.reserves@
    }

    /// The tokens of the reserves, in order.
    pub open spec fn tokens(self) -> Seq<H160> {
        tokens_of(self.reserves())
    }

    /// The reserves that `reserves` lists, in that order. Fails where a
    /// token occurs twice.
    pub fn new(reserves: Vec<Reserve>) -> (r: Result<Reserves, InvalidReserves>)
        ensures
            match r {
                Ok(made) => distinct(tokens_of(reserves@)) && made.wf() && made.reserves()
                    == reserves@,
                Err(_) => !distinct(tokens_of(reserves@)),
            },
    {
        let n: usize = reserves.len();
        let mut tokens: Vec<H160> = Vec::new();
        let mut i: usize = 0;
        while i < n
            invariant
                n == reserves@.len(),
                0 <= i <= n,
                tokens@ == tokens_of(reserves@).take(i as int),
            decreases n - i,
        {
            tokens.push(reserves[i].asset.token);
            assert(tokens@ =~= tokens_of(reserves@).take(i + 1));
            i = i + 1;
        }
        assert(tokens@ =~= tokens_of(reserves@));
        if all_distinct(&tokens) {
            Ok(Reserves { reserves })
        } else {
            Err(InvalidReserves)
        }
    }

    /// The reserves, in the pool's order.
    pub fn get(&self) -> (r: &Vec<Reserve>)
        ensures
            r@ == self.reserves(),
            distinct(tokens_of(r@)),
    {
        proof {
            use_type_invariant(self);
        }
        &self.reserves
    }

    /// No token occurs twice in the reserves of a pool.
    pub proof fn lemma_distinct(self)
        requires
            self.wf(),
        ensures
            distinct(self.tokens()),
    {
    }
}

/// The version of the weighted pool contract.
#[derive(Clone, Copy, Debug, PartialEq, Eq, Structural)]
pub enum Version {
    V0,
    V3Plus,
}

/// A weighted-product pool.
#[derive(Debug)]
pub struct Pool {
    pub vault: H160,
    pub id: Id,
    pub reserves: Reserves,
    pub fee: Fee,
    pub version: Version,
}

} // verus!
