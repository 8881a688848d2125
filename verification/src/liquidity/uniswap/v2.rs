//! Constant-product pools.

use crate::eth::{Asset, H160};
use vstd::prelude::*;

verus! {

/// Reserves that are not two amounts of two distinct tokens.
#[derive(Clone, Copy, Debug, PartialEq, Eq, Structural)]
pub struct InvalidReserves;

/// The two reserves of a pool, the token with the smaller address first.
#[derive(Clone, Copy, Debug)]
pub struct Reserves {
    first: Asset,
    second: Asset,
}

/// `a` and `b` with the token of the smaller address first.
pub open spec fn ordered(a: Asset, b: Asset) -> (Asset, Asset) {
    if a.token.value() < b.token.value() {
        (a, b)
    } else {
        (b, a)
    }
}

/// What `Reserves::from_assets` makes of `assets`: a pair where there are
/// exactly two, of distinct tokens.
pub open spec fn reserves_of(assets: Seq<Asset>) -> Option<(Asset, Asset)> {
    if assets.len() == 2 && assets[0].token != assets[1].token {
        Some(ordered(assets[0], assets[1]))
    } else {
        None
    }
}

impl Reserves {
    #[verifier::type_invariant]
    pub closed spec fn wf(self) -> bool {
        self.first.token.value() < self.second.token.value()
    }

    /// The two reserves, in order.
    pub closed spec fn assets(self) -> (Asset, Asset) {
        (self.first, self.second)
    }

    /// The tokens of the two reserves, in order.
    pub open spec fn tokens(self) -> Seq<H160> {
        seq![self.assets().0.token, self.assets().1.token]
    }

    /// The reserves `a` and `b`, in either order. Fails where both are of
    /// the same token.
    pub fn new(a: Asset, b: Asset) -> (r: Result<Reserves, InvalidReserves>)
        ensures
            match r {
                Ok(reserves) => a.token != b.token && reserves.wf() && reserves.assets() == ordered(
                    a,
                    b,
                ),
                Err(_) => a.token == b.token,
            },
    {
        if a.token.lt(&b.token) {
            Ok(Reserves { first: a, second: b })
        } else if b.token.lt(&a.token) {
            Ok(Reserves { first: b, second: a })
        } else {
            proof {
                crate::eth::lemma_address_value_injective(a.token, b.token);
            }
            Err(InvalidReserves)
        }
    }

    /// The reserves that `assets` lists. Fails unless there are exactly two,
    /// of distinct tokens.
    pub fn from_assets(assets: &Vec<Asset>) -> (r: Result<Reserves, InvalidReserves>)
        ensures
            match r {
                Ok(reserves) => reserves.wf() && reserves_of(assets@) == Some(reserves.assets()),
                Err(_) => reserves_of(assets@) is None,
            },
    {
        if assets.len() != 2 {
            return Err(InvalidReserves);
        }
        Reserves::new(assets[0], assets[1])
    }

    /// The two reserves, the token with the smaller address first.
    pub fn get(&self) -> (r: (Asset, Asset))
        ensures
            r == self.assets(),
            r.0.token.value() < r.1.token.value(),
    {
        proof {
            use_type_invariant(self);
        }
        (self.first, self.second)
    }

    /// The reserves of a pool are of two distinct tokens, in order.
    pub proof fn lemma_in_order(self)
        requires
            self.wf(),
        ensures
            self.assets().0.token.value() < self.assets().1.token.value(),
            self.assets().0.token != self.assets().1.token,
    {
    }
}

/// A constant-product pool.
#[derive(Clone, Copy, Debug)]
pub struct Pool {
    pub address: H160,
    pub router: H160,
    pub reserves: Reserves,
}

} // verus!
