//! The driver's own model of on-chain liquidity: one type per kind of pool,
//! each holding values that were already converted and checked.

pub mod balancer;
pub mod swapr;
pub mod uniswap;
pub mod zeroex;

use crate::eth::{H160, U256};
use vstd::prelude::*;

verus! {

/// A source of liquidity that a solver may route through.
#[derive(Debug)]
pub struct Liquidity {
    /// The number by which the driver knows this pool.
    pub id: usize,
    /// The estimated gas cost of using this pool.
    pub gas: U256,
    pub kind: Kind,
}

/// The kinds of pool that the driver knows.
#[derive(Debug)]
pub enum Kind {
    UniswapV2(uniswap::v2::Pool),
    UniswapV3(uniswap::v3::Pool),
    BalancerV2Stable(balancer::stable::Pool),
    BalancerV2Weighted(balancer::weighted::Pool),
    Swapr(swapr::Pool),
    ZeroEx(zeroex::LimitOrder),
}

/// Two tokens that are the same where a pair needs two.
#[derive(Clone, Copy, Debug, PartialEq, Eq, Structural)]
pub struct InvalidTokenPair;

/// Two distinct tokens, the one with the smaller address first.
#[derive(Clone, Copy, Debug)]
pub struct TokenPair {
    first: H160,
    second: H160,
}

/// `a` and `b` with the smaller address first.
pub open spec fn ordered(a: H160, b: H160) -> (H160, H160) {
    if a.value() < b.value() {
        (a, b)
    } else {
        (b, a)
    }
}

impl TokenPair {
    #[verifier::type_invariant]
    pub closed spec fn wf(self) -> bool {
        self.first.value() < self.second.value()
    }

    /// The two tokens, in order.
    pub closed spec fn tokens(self) -> (H160, H160) {
        (self.first, self.second)
    }

    /// The pair of `a` and `b`, in either order. Fails where they are the
    /// same token.
    pub fn new(a: H160, b: H160) -> (r: Result<TokenPair, InvalidTokenPair>)
        ensures
            match r {
                Ok(pair) => a != b && pair.wf() && pair.tokens() == ordered(a, b),
                Err(_) => a == b,
            },
    {
        if a.lt(&b) {
            Ok(TokenPair { first: a, second: b })
        } else if b.lt(&a) {
            Ok(TokenPair { first: b, second: a })
        } else {
            proof {
                crate::eth::lemma_address_value_injective(a, b);
            }
            Err(InvalidTokenPair)
        }
    }

    /// The two tokens, the smaller address first.
    pub fn get(&self) -> (r: (H160, H160))
        ensures
            r == self.tokens(),
            r.0.value() < r.1.value(),
    {
        proof {
            use_type_invariant(self);
        }
        (self.first, self.second)
    }

    /// The tokens of a pair are in order, and so distinct.
    pub proof fn lemma_in_order(self)
        requires
            self.wf(),
        ensures
            self.tokens().0.value() < self.tokens().1.value(),
            self.tokens().0 != self.tokens().1,
    {
    }
}

/// Whether no token occurs twice in `tokens`.
pub open spec fn distinct(tokens: Seq<H160>) -> bool {
    forall|i: int, j: int| 0 <= i < j < tokens.len() ==> tokens[i] != tokens[j]
}

/// Whether no token occurs twice in `tokens`.
pub fn all_distinct(tokens: &Vec<H160>) -> (r: bool)
    ensures
        r == distinct(tokens@),
{
    let n: usize = tokens.len();
    let mut j: usize = 0;
    while j < n
        invariant
            n == tokens@.len(),
            0 <= j <= n,
            forall|a: int, b: int| 0 <= a < b < j ==> tokens@[a] != tokens@[b],
        decreases n - j,
    {
        let mut i: usize = 0;
        while i < j
            invariant
                n == tokens@.len(),
                0 <= i <= j < n,
                forall|a: int| 0 <= a < i ==> tokens@[a] != tokens@[j as int],
            decreases j - i,
        {
            if tokens[i] == tokens[j] {
                return false;
            }
            i = i + 1;
        }
        j = j + 1;
    }
    true
}

impl Kind {
    /// The tokens that the pool's reserves refer to, in the pool's order.
    pub open spec fn tokens(self) -> Seq<H160> {
        match self {
            Kind::UniswapV2(pool) => pool.reserves.tokens(),
            Kind::UniswapV3(pool) => seq![pool.tokens.tokens().0, pool.tokens.tokens().1],
            Kind::BalancerV2Stable(pool) => pool.reserves.tokens(),
            Kind::BalancerV2Weighted(pool) => pool.reserves.tokens(),
            Kind::Swapr(pool) => pool.base.reserves.tokens(),
            Kind::ZeroEx(_) => Seq::empty(),
        }
    }

    /// The tokens that the pool's reserves refer to, in the pool's order.
    pub fn token_list(&self) -> (r: Vec<H160>)
        ensures
            r@ == self.tokens(),
    {
        let mut tokens: Vec<H160> = Vec::new();
        match self {
            Kind::UniswapV2(pool) => {
                let (a, b): (crate::eth::Asset, crate::eth::Asset) = pool.reserves.get();
                tokens.push(a.token);
                tokens.push(b.token);
            },
            Kind::UniswapV3(pool) => {
                let (a, b): (H160, H160) = pool.tokens.get();
                tokens.push(a);
                tokens.push(b);
            },
            Kind::BalancerV2Stable(pool) => {
                let reserves: &Vec<balancer::stable::Reserve> = pool.reserves.get();
                let n: usize = reserves.len();
                let mut i: usize = 0;
                while i < n
                    invariant
                        n == reserves@.len(),
                        0 <= i <= n,
                        tokens@ == balancer::stable::tokens_of(reserves@).take(i as int),
                    decreases n - i,
                {
                    tokens.push(reserves[i].asset.token);
                    assert(tokens@ =~= balancer::stable::tokens_of(reserves@).take(i + 1));
                    i = i + 1;
                }
            },
            Kind::BalancerV2Weighted(pool) => {
                let reserves: &Vec<balancer::weighted::Reserve> = pool.reserves.get();
                let n: usize = reserves.len();
                let mut i: usize = 0;
                while i < n
                    invariant
                        n == reserves@.len(),
                        0 <= i <= n,
                        tokens@ == balancer::weighted::tokens_of(reserves@).take(i as int),
                    decreases n - i,
                {
                    tokens.push(reserves[i].asset.token);
                    assert(tokens@ =~= balancer::weighted::tokens_of(reserves@).take(i + 1));
                    i = i + 1;
                }
            },
            Kind::Swapr(pool) => {
                let (a, b): (crate::eth::Asset, crate::eth::Asset) = pool.base.reserves.get();
                tokens.push(a.token);
                tokens.push(b.token);
            },
            Kind::ZeroEx(_) => {},
        }
        assert(tokens@ =~= self.tokens());
        tokens
    }

    /// Whether every part of the pool is well formed.
    pub open spec fn wf(self) -> bool {
        match self {
            Kind::UniswapV2(pool) => pool.reserves.wf(),
            Kind::UniswapV3(pool) => pool.tokens.wf() && pool.fee.wf(),
            Kind::BalancerV2Stable(pool) => pool.reserves.wf() && pool.amplification_parameter.wf(),
            Kind::BalancerV2Weighted(pool) => pool.reserves.wf(),
            Kind::Swapr(pool) => pool.base.reserves.wf(),
            Kind::ZeroEx(_) => true,
        }
    }
}

} // verus!
