//! Stable pools.

use crate::eth::{Asset, H160, U256};
use crate::liquidity::balancer::{Fee, Id, InvalidReserves, ScalingFactor};
use crate::liquidity::{all_distinct, distinct};
use vstd::prelude::*;

verus! {

/// What a pool holds of one token.
#[derive(Clone, Copy, Debug, PartialEq, Eq, Structural)]
pub struct Reserve {
    pub asset: Asset,
    pub scale: ScalingFactor,
}

/// The reserves of a pool, in the pool's order. No token occurs twice.
#[derive(Debug)]
pub struct Reserves {
    reserves: Vec<Reserve>,
}

/// The tokens of `reserves`, in order.
pub open spec fn tokens_of(reserves: Seq<Reserve>) -> Seq<H160> {
    Seq::new(reserves.len(), |i: int| reserves[i].asset.token)
}

impl Reserves {
    #[verifier::type_invariant]
    pub closed spec fn wf(self) -> bool {
        distinct(tokens_of(self.reserves@))
    }

    /// The reserves, in order.
    pub closed spec fn reserves(self) -> Seq<Reserve> {
        self.reserves@
    }

    /// The tokens of the reserves, in order.
    pub open spec fn tokens(self) -> Seq<H160> {
        tokens_of(self.reserves())
    }

    /// The reserves that `reserves` lists, in that order. Fails where a
    /// token occurs twice.
    pub fn new(reserves: Vec<Reserve>) -> (r: Result<Reserves, InvalidReserves>)
        ensures
            match r {
                Ok(made) => distinct(tokens_of(reserves@)) && made.wf() && made.reserves()
                    == reserves@,
                Err(_) => !distinct(tokens_of(reserves@)),
            },
    {
        let n: usize = reserves.len();
        let mut tokens: Vec<H160> = Vec::new();
        let mut i: usize = 0;
        while i < n
            invariant
                n == reserves@.len(),
                0 <= i <= n,
                tokens@ == tokens_of(reserves@).take(i as int),
            decreases n - i,
        {
            tokens.push(reserves[i].asset.token);
            assert(tokens@ =~= tokens_of(reserves@).take(i + 1));
            i = i + 1;
        }
        assert(tokens@ =~= tokens_of(reserves@));
        if all_distinct(&tokens) {
            Ok(Reserves { reserves })
        } else {
            Err(InvalidReserves)
        }
    }

    /// The reserves, in the pool's order.
    pub fn get(&self) -> (r: &Vec<Reserve>)
        ensures
            r@ == self.reserves(),
            distinct(tokens_of(r@)),
    {
        proof {
            use_type_invariant(self);
        }
        &self.reserves
    }

    /// No token occurs twice in the reserves of a pool.
    pub proof fn lemma_distinct(self)
        requires
            self.wf(),
        ensures
            distinct(self.tokens()),
    {
    }
}

/// A denominator of zero where a ratio needs one that is not.
#[derive(Clone, Copy, Debug, PartialEq, Eq, Structural)]
pub struct InvalidRatio;

/// The amplification parameter of a stable pool, as the ratio
/// `factor / precision`.
#[derive(Clone, Copy, Debug)]
pub struct AmplificationParameter {
    factor: U256,
    precision: U256,
}

impl AmplificationParameter {
    #[verifier::type_invariant]
    pub closed spec fn wf(self) -> bool {
        self.precision@ != 0
    }

    /// The numerator of the ratio.
    pub closed spec fn spec_factor(self) -> U256 {
        self.factor
    }

    /// The denominator of the ratio.
    pub closed spec fn spec_precision(self) -> U256 {
        self.precision
    }

    /// The parameter `factor / precision`. Fails where `precision` is zero.
    pub fn new(factor: U256, precision: U256) -> (r: Result<AmplificationParameter, InvalidRatio>)
        ensures
            match r {
                Ok(made) => {
                    &&& precision@ != 0
                    &&& made.wf()
                    &&& made.spec_factor() == factor
                    &&& made.spec_precision() == precision
                },
                Err(_) => precision@ == 0,
            },
    {
        if precision.is_zero() {
            Err(InvalidRatio)
        } else {
            Ok(AmplificationParameter { factor, precision })
        }
    }

    /// The numerator of the ratio.
    pub fn factor(&self) -> (r: U256)
        ensures
            r == self.spec_factor(),
    {
        self.factor
    }

    /// The denominator of the ratio, which is not zero.
    pub fn precision(&self) -> (r: U256)
        ensures
            r == self.spec_precision(),
            r@ != 0,
    {
        proof {
            use_type_invariant(self);
        }
        self.precision
    }

    /// The denominator of an amplification parameter is not zero.
    pub proof fn lemma_precision_positive(self)
        requires
            self.wf(),
        ensures
            self.spec_precision()@ != 0,
    {
    }
}

/// A stable pool.
#[derive(Debug)]
pub struct Pool {
    pub vault: H160,
    pub id: Id,
    pub reserves: Reserves,
    pub fee: Fee,
    pub amplification_parameter: AmplificationParameter,
}

} // verus!
