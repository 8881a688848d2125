//! Concentrated-liquidity pools.

use crate::arith::lowest_terms;
use crate::decimal::reduce;
use crate::eth::{H160, U256};
use crate::liquidity::TokenPair;
use std::collections::BTreeMap;
use vstd::prelude::*;

verus! {

/// A pool fee as a fraction in lowest terms. On chain the fee is a whole
/// number of millionths.
#[derive(Clone, Copy, Debug)]
pub struct Fee {
    numer: u32,
    denom: u32,
}

impl Fee {
    #[verifier::type_invariant]
    pub closed spec fn wf(self) -> bool {
        self.denom > 0
    }

    /// The numerator of the fraction.
    pub closed spec fn numer(self) -> nat {
        self.numer as nat
    }

    /// The denominator of the fraction.
    pub closed spec fn denom(self) -> nat {
        self.denom as nat
    }

    /// The fee `numer / denom`, in lowest terms. Gives `None` for a zero
    /// denominator.
    pub fn new(numer: u32, denom: u32) -> (r: Option<Fee>)
        ensures
            match r {
                Some(fee) => {
                    &&& denom != 0
                    &&& fee.wf()
                    &&& (fee.numer(), fee.denom()) == lowest_terms(numer as nat, denom as nat)
                },
                None => denom == 0,
            },
    {
        if denom == 0 {
            return None;
        }
        let (n, d): (u32, u32) = reduce(numer, denom);
        proof {
            crate::arith::lemma_lowest_terms_value(numer as nat, denom as nat);
        }
        Some(Fee { numer: n, denom: d })
    }

    /// The numerator and the denominator.
    pub fn get(&self) -> (r: (u32, u32))
        ensures
            r.0 == self.numer(),
            r.1 == self.denom(),
            r.1 > 0,
    {
        proof {
            use_type_invariant(self);
        }
        (self.numer, self.denom)
    }

    /// The denominator of a fee is not zero.
    pub proof fn lemma_denom_positive(self)
        requires
            self.wf(),
        ensures
            self.denom() > 0,
    {
    }
}

/// A concentrated-liquidity pool.
#[derive(Debug)]
pub struct Pool {
    pub router: H160,
    pub address: H160,
    pub tokens: TokenPair,
    /// The square root of the current price, as the pool holds it.
    pub sqrt_price: U256,
    /// The liquidity that is active at the current price.
    pub liquidity: u128,
    /// The current tick.
    pub tick: i32,
    /// By how much the active liquidity changes when the price crosses each
    /// tick.
    pub liquidity_net: BTreeMap<i32, i128>,
    pub fee: Fee,
}

} // verus!
