//! Liquidity on the wire: one record per kind of pool, with numbers as
//! decimals, and how a pool of the driver is written as one.

use crate::arith::lowest_terms;
use crate::decimal::{divide, is_quotient, reduce_big, Decimal, DecimalView};
use crate::dto::entries::{ascending, keys, lemma_upserted_distinct, upserted};
use crate::eth::{Asset, H160, H256, U256};
use crate::fixed_point::{fixed_point_decimal, fixed_to_decimal};
use crate::liquidity::balancer::{stable, weighted, Fee, ScalingFactor};
use crate::liquidity::uniswap::{v2, v3};
use crate::liquidity::{distinct, swapr, Kind};
use indexmap::IndexMap;
use std::collections::BTreeMap;
use vstd::prelude::*;

verus! {

/// `indexmap::IndexMap`: a hash map that keeps its entries in the order in
/// which their keys were first put in.
#[verifier::external_type_specification]
#[verifier::external_body]
#[verifier::reject_recursive_types(K)]
#[verifier::reject_recursive_types(V)]
#[verifier::reject_recursive_types(S)]
pub struct ExIndexMap<K, V, S>(IndexMap<K, V, S>);

/// A pool of liquidity, tagged with its kind.
#[derive(Debug)]
pub enum Liquidity {
    ConstantProduct(ConstantProductPool),
    WeightedProduct(WeightedProductPool),
    Stable(StablePool),
    ConcentratedLiquidity(ConcentratedLiquidityPool),
    LimitOrder(ForeignLimitOrder),
}

/// A pool that keeps the product of its two reserves constant.
#[derive(Debug)]
pub struct ConstantProductPool {
    pub id: usize,
    pub address: H160,
    pub router: H160,
    pub gas_estimate: U256,
    /// The reserve of each token, ordered by token address.
    pub tokens: Vec<(H160, ConstantProductReserve)>,
    pub fee: Decimal,
}

/// What a constant-product pool holds of one token.
#[derive(Clone, Copy, Debug, PartialEq, Eq, Structural)]
pub struct ConstantProductReserve {
    pub balance: U256,
}

/// A pool that keeps a weighted product of its reserves constant.
#[derive(Debug)]
pub struct WeightedProductPool {
    pub id: usize,
    pub address: H160,
    pub balancer_pool_id: H256,
    pub gas_estimate: U256,
    pub tokens: IndexMap<H160, WeightedProductReserve>,
    pub fee: Decimal,
    pub version: WeightedProductVersion,
}

/// What a weighted-product pool holds of one token.
#[derive(Debug)]
pub struct WeightedProductReserve {
    pub balance: U256,
    pub scaling_factor: Decimal,
    pub weight: Decimal,
}

/// The version of the weighted pool contract.
#[derive(Clone, Copy, Debug, PartialEq, Eq, Structural)]
pub enum WeightedProductVersion {
    V0,
    V3Plus,
}

/// A pool for tokens that trade near par.
#[derive(Debug)]
pub struct StablePool {
    pub id: usize,
    pub address: H160,
    pub balancer_pool_id: H256,
    pub gas_estimate: U256,
    pub tokens: IndexMap<H160, StableReserve>,
    pub amplification_parameter: Decimal,
    pub fee: Decimal,
}

/// What a stable pool holds of one token.
#[derive(Debug)]
pub struct StableReserve {
    pub balance: U256,
    pub scaling_factor: Decimal,
}

/// A pool whose liquidity is spread over price ranges.
#[derive(Debug)]
pub struct ConcentratedLiquidityPool {
    pub id: usize,
    pub address: H160,
    pub router: H160,
    pub gas_estimate: U256,
    pub tokens: Vec<H160>,
    pub sqrt_price: U256,
    pub liquidity: u128,
    pub tick: i32,
    pub liquidity_net: BTreeMap<i32, i128>,
    pub fee: Decimal,
}

/// A limit order of another protocol. The format has a place for it, but no
/// such order is ever accepted.
#[derive(Clone, Copy, Debug)]
pub struct ForeignLimitOrder {
    pub id: usize,
    pub address: H160,
    pub gas_estimate: U256,
    pub hash: [u8; 32],
    pub maker_token: H160,
    pub taker_token: H160,
    pub maker_amount: U256,
    pub taker_amount: U256,
    pub taker_token_fee_amount: U256,
}

/// The entries of a weighted pool's token map, in the map's order.
pub uninterp spec fn weighted_entries(map: IndexMap<H160, WeightedProductReserve>) -> Seq<
    (H160, WeightedProductReserve),
>;

/// The entries of a stable pool's token map, in the map's order.
pub uninterp spec fn stable_entries(map: IndexMap<H160, StableReserve>) -> Seq<
    (H160, StableReserve),
>;

/// `IndexMap::into_iter`, collected: the entries of the map in the map's
/// order. No key occurs twice.
#[verifier::external_body]
pub(crate) fn weighted_into_entries(map: IndexMap<H160, WeightedProductReserve>) -> (r: Vec<
    (H160, WeightedProductReserve),
>)
    ensures
        r@ == weighted_entries(map),
        distinct(keys(r@)),
{
    map.into_iter().collect()
}

/// `IndexMap::from_iter`: the map that results from inserting each entry in
/// turn. An entry under a key that is already there replaces the value and
/// keeps the place; any other comes last.
#[verifier::external_body]
pub(crate) fn weighted_from_entries(entries: Vec<(H160, WeightedProductReserve)>) -> (r: IndexMap<
    H160,
    WeightedProductReserve,
>)
    ensures
        weighted_entries(r) == upserted(entries@),
{
    entries.into_iter().collect()
}

/// `IndexMap::into_iter`, collected: the entries of the map in the map's
/// order. No key occurs twice.
#[verifier::external_body]
pub(crate) fn stable_into_entries(map: IndexMap<H160, StableReserve>) -> (r: Vec<
    (H160, StableReserve),
>)
    ensures
        r@ == stable_entries(map),
        distinct(keys(r@)),
{
    map.into_iter().collect()
}

/// `IndexMap::from_iter`: the map that results from inserting each entry in
/// turn. An entry under a key that is already there replaces the value and
/// keeps the place; any other comes last.
#[verifier::external_body]
pub(crate) fn stable_from_entries(entries: Vec<(H160, StableReserve)>) -> (r: IndexMap<
    H160,
    StableReserve,
>)
    ensures
        stable_entries(r) == upserted(entries@),
{
    entries.into_iter().collect()
}

/// The fee of a plain constant-product pool: 0.003.
pub open spec fn constant_product_fee() -> DecimalView {
    DecimalView { unscaled: 3, scale: 3 }
}

/// The fee of a Swapr pool: its basis points at four fractional digits.
pub open spec fn swapr_fee(fee: swapr::Fee) -> DecimalView {
    DecimalView { unscaled: fee.bps as int, scale: 4 }
}

/// The two reserves of a constant-product pool as wire entries.
pub open spec fn constant_product_entries(reserves: v2::Reserves) -> Seq<
    (H160, ConstantProductReserve),
> {
    seq![
        (reserves.assets().0.token, ConstantProductReserve { balance: reserves.assets().0.amount }),
        (reserves.assets().1.token, ConstantProductReserve { balance: reserves.assets().1.amount }),
    ]
}

/// Whether `wire` is the pool `pool` with the fee `fee`.
pub open spec fn is_constant_product(
    id: usize,
    gas: U256,
    pool: v2::Pool,
    fee: DecimalView,
    wire: ConstantProductPool,
) -> bool {
    &&& wire.id == id
    &&& wire.address == pool.address
    &&& wire.router == pool.router
    &&& wire.gas_estimate == gas
    &&& wire.tokens@ == constant_product_entries(pool.reserves)
    &&& wire.fee@ == fee
}

/// Whether `entry` is the reserve `reserve`, with its weight and scaling
/// factor as decimals of 18 fractional digits.
pub open spec fn is_weighted_reserve(
    reserve: weighted::Reserve,
    entry: (H160, WeightedProductReserve),
) -> bool {
    &&& entry.0 == reserve.asset.token
    &&& entry.1.balance == reserve.asset.amount
    &&& entry.1.scaling_factor@ == fixed_point_decimal(reserve.scale.raw()@, 18)
    &&& entry.1.weight@ == fixed_point_decimal(reserve.weight.raw()@, 18)
}

/// The wire form of a weighted pool's version.
pub open spec fn wire_version(version: weighted::Version) -> WeightedProductVersion {
    match version {
        weighted::Version::V0 => WeightedProductVersion::V0,
        weighted::Version::V3Plus => WeightedProductVersion::V3Plus,
    }
}

/// Whether `wire` is the pool `pool`.
pub open spec fn is_weighted_product(
    id: usize,
    gas: U256,
    pool: weighted::Pool,
    wire: WeightedProductPool,
) -> bool {
    &&& wire.id == id
    &&& wire.address == pool.id.spec_address()
    &&& wire.balancer_pool_id == pool.id.word
    &&& wire.gas_estimate == gas
    &&& weighted_entries(wire.tokens).len() == pool.reserves.reserves().len()
    &&& forall|i: int|
        0 <= i < pool.reserves.reserves().len() ==> is_weighted_reserve(
            #[trigger] pool.reserves.reserves()[i],
            weighted_entries(wire.tokens)[i],
        )
    &&& wire.fee@ == fixed_point_decimal(pool.fee.raw()@, 18)
    &&& wire.version == wire_version(pool.version)
}

/// Whether `entry` is the reserve `reserve`, with its scaling factor as a
/// decimal of 18 fractional digits.
pub open spec fn is_stable_reserve(reserve: stable::Reserve, entry: (H160, StableReserve)) -> bool {
    &&& entry.0 == reserve.asset.token
    &&& entry.1.balance == reserve.asset.amount
    &&& entry.1.scaling_factor@ == fixed_point_decimal(reserve.scale.raw()@, 18)
}

/// Whether `r` is the amplification parameter `parameter` as a decimal: its
/// ratio in lowest terms, divided out.
pub open spec fn is_amplification(parameter: stable::AmplificationParameter, r: DecimalView) -> bool {
    let ratio = lowest_terms(parameter.spec_factor()@, parameter.spec_precision()@);
    is_quotient(ratio.0 as int, ratio.1 as int, r)
}

/// Whether `wire` is the pool `pool`.
pub open spec fn is_stable(id: usize, gas: U256, pool: stable::Pool, wire: StablePool) -> bool {
    &&& wire.id == id
    &&& wire.address == pool.id.spec_address()
    &&& wire.balancer_pool_id == pool.id.word
    &&& wire.gas_estimate == gas
    &&& stable_entries(wire.tokens).len() == pool.reserves.reserves().len()
    &&& forall|i: int|
        0 <= i < pool.reserves.reserves().len() ==> is_stable_reserve(
            #[trigger] pool.reserves.reserves()[i],
            stable_entries(wire.tokens)[i],
        )
    &&& is_amplification(pool.amplification_parameter, wire.amplification_parameter@)
    &&& wire.fee@ == fixed_point_decimal(pool.fee.raw()@, 18)
}

/// Whether `wire` is the pool `pool`.
pub open spec fn is_concentrated_liquidity(
    id: usize,
    gas: U256,
    pool: v3::Pool,
    wire: ConcentratedLiquidityPool,
) -> bool {
    &&& wire.id == id
    &&& wire.address == pool.address
    &&& wire.router == pool.router
    &&& wire.gas_estimate == gas
    &&& wire.tokens@ == seq![pool.tokens.tokens().0, pool.tokens.tokens().1]
    &&& wire.sqrt_price == pool.sqrt_price
    &&& wire.liquidity == pool.liquidity
    &&& wire.tick == pool.tick
    &&& wire.liquidity_net@ == pool.liquidity_net@
    &&& is_quotient(pool.fee.numer() as int, pool.fee.denom() as int, wire.fee@)
}

/// Whether `wire` is the wire form of the pool `pool`. A foreign limit order
/// has none.
pub open spec fn encodes(pool: crate::liquidity::Liquidity, wire: Liquidity) -> bool {
    match pool.kind {
        Kind::UniswapV2(inner) => wire matches Liquidity::ConstantProduct(w) && is_constant_product(
            pool.id,
            pool.gas,
            inner,
            constant_product_fee(),
            w,
        ),
        Kind::UniswapV3(inner) => wire matches Liquidity::ConcentratedLiquidity(w)
            && is_concentrated_liquidity(pool.id, pool.gas, inner, w),
        Kind::BalancerV2Stable(inner) => wire matches Liquidity::Stable(w) && is_stable(
            pool.id,
            pool.gas,
            inner,
            w,
        ),
        Kind::BalancerV2Weighted(inner) => wire matches Liquidity::WeightedProduct(w)
            && is_weighted_product(pool.id, pool.gas, inner, w),
        Kind::Swapr(inner) => wire matches Liquidity::ConstantProduct(w) && is_constant_product(
            pool.id,
            pool.gas,
            inner.base,
            swapr_fee(inner.fee),
            w,
        ),
        Kind::ZeroEx(_) => false,
    }
}

/// A swap fee as a decimal.
pub fn fee_to_decimal(fee: Fee) -> (r: Decimal)
    ensures
        r@ == fixed_point_decimal(fee.raw()@, 18),
{
    fixed_to_decimal(fee.as_raw(), 18)
}

/// A weight as a decimal.
pub fn weight_to_decimal(weight: weighted::Weight) -> (r: Decimal)
    ensures
        r@ == fixed_point_decimal(weight.raw()@, 18),
{
    fixed_to_decimal(weight.as_raw(), 18)
}

/// A scaling factor as a decimal.
pub fn scaling_factor_to_decimal(scale: ScalingFactor) -> (r: Decimal)
    ensures
        r@ == fixed_point_decimal(scale.raw()@, 18),
{
    fixed_to_decimal(scale.as_raw(), 18)
}

/// The fee of a concentrated-liquidity pool as a decimal: its numerator
/// divided by its denominator.
pub fn v3_fee_to_decimal(fee: &v3::Fee) -> (r: Decimal)
    ensures
        is_quotient(fee.numer() as int, fee.denom() as int, r@),
{
    let (numer, denom): (u32, u32) = fee.get();
    let numer: Vec<u8> = U256::from_u128(numer as u128).to_signed_be_bytes();
    let denom: Vec<u8> = U256::from_u128(denom as u128).to_signed_be_bytes();
    divide(&numer, &denom)
}

/// The ratio of an amplification parameter in lowest terms.
pub fn amplification_ratio(parameter: &stable::AmplificationParameter) -> (r: (U256, U256))
    ensures
        (r.0@, r.1@) == lowest_terms(parameter.spec_factor()@, parameter.spec_precision()@),
        r.1@ > 0,
{
    let factor: Vec<u8> = parameter.factor().to_signed_be_bytes();
    let precision: Vec<u8> = parameter.precision().to_signed_be_bytes();
    let (numer, denom): (Vec<u8>, Vec<u8>) = reduce_big(&factor, &precision);
    proof {
        let f = parameter.spec_factor()@;
        let p = parameter.spec_precision()@;
        crate::arith::lemma_lowest_terms_value(f, p);
        crate::arith::lemma_gcd_positive(f, p);
        let g = crate::arith::gcd(f, p) as int;
        let n = lowest_terms(f, p).0 as int;
        let d = lowest_terms(f, p).1 as int;
        assert(n <= n * g && d <= d * g) by (nonlinear_arith)
            requires
                n >= 0,
                d >= 0,
                g >= 1,
        ;
    }
    match (U256::from_signed_be_bytes(&numer), U256::from_signed_be_bytes(&denom)) {
        (Some(numer), Some(denom)) => (numer, denom),
        _ => vstd::pervasive::unreached(),
    }
}

/// An amplification parameter as a decimal: its ratio, brought to lowest
/// terms and divided out.
pub fn amplification_to_decimal(parameter: &stable::AmplificationParameter) -> (r: Decimal)
    ensures
        is_amplification(*parameter, r@),
{
    let (numer, denom): (U256, U256) = amplification_ratio(parameter);
    divide(&numer.to_signed_be_bytes(), &denom.to_signed_be_bytes())
}

/// The two reserves of a constant-product pool as wire entries, ordered by
/// token address.
fn constant_product_tokens(reserves: &v2::Reserves) -> (r: Vec<(H160, ConstantProductReserve)>)
    ensures
        r@ == constant_product_entries(*reserves),
        ascending(r@),
{
    let (a, b): (Asset, Asset) = reserves.get();
    let mut tokens: Vec<(H160, ConstantProductReserve)> = Vec::new();
    tokens.push((a.token, ConstantProductReserve { balance: a.amount }));
    tokens.push((b.token, ConstantProductReserve { balance: b.amount }));
    assert(tokens@ =~= constant_product_entries(*reserves));
    tokens
}

/// The token map of a weighted pool.
fn weighted_tokens(reserves: &weighted::Reserves) -> (r: IndexMap<H160, WeightedProductReserve>)
    ensures
        weighted_entries(r).len() == reserves.reserves().len(),
        forall|i: int|
            0 <= i < reserves.reserves().len() ==> is_weighted_reserve(
                #[trigger] reserves.reserves()[i],
                weighted_entries(r)[i],
            ),
{
    let list: &Vec<weighted::Reserve> = reserves.get();
    let n: usize = list.len();
    let mut entries: Vec<(H160, WeightedProductReserve)> = Vec::new();
    let mut i: usize = 0;
    while i < n
        invariant
            n == list@.len(),
            0 <= i <= n,
            entries@.len() == i,
            forall|k: int| 0 <= k < i ==> is_weighted_reserve(#[trigger] list@[k], entries@[k]),
        decreases n - i,
    {
        let reserve: weighted::Reserve = list[i];
        entries.push(
            (
                reserve.asset.token,
                WeightedProductReserve {
                    balance: reserve.asset.amount,
                    scaling_factor: scaling_factor_to_decimal(reserve.scale),
                    weight: weight_to_decimal(reserve.weight),
                },
            ),
        );
        i = i + 1;
    }
    proof {
        assert(keys(entries@) =~= weighted::tokens_of(list@));
        lemma_upserted_distinct(entries@);
    }
    weighted_from_entries(entries)
}

/// The token map of a stable pool.
fn stable_tokens(reserves: &stable::Reserves) -> (r: IndexMap<H160, StableReserve>)
    ensures
        stable_entries(r).len() == reserves.reserves().len(),
        forall|i: int|
            0 <= i < reserves.reserves().len() ==> is_stable_reserve(
                #[trigger] reserves.reserves()[i],
                stable_entries(r)[i],
            ),
{
    let list: &Vec<stable::Reserve> = reserves.get();
    let n: usize = list.len();
    let mut entries: Vec<(H160, StableReserve)> = Vec::new();
    let mut i: usize = 0;
    while i < n
        invariant
            n == list@.len(),
            0 <= i <= n,
            entries@.len() == i,
            forall|k: int| 0 <= k < i ==> is_stable_reserve(#[trigger] list@[k], entries@[k]),
        decreases n - i,
    {
        let reserve: stable::Reserve = list[i];
        entries.push(
            (
                reserve.asset.token,
                StableReserve {
                    balance: reserve.asset.amount,
                    scaling_factor: scaling_factor_to_decimal(reserve.scale),
                },
            ),
        );
        i = i + 1;
    }
    proof {
        assert(keys(entries@) =~= stable::tokens_of(list@));
        lemma_upserted_distinct(entries@);
    }
    stable_from_entries(entries)
}

impl Liquidity {
    /// Writes a pool of the driver in its wire form. A foreign limit order
    /// has none and must not be passed.
    pub fn from_domain(pool: &crate::liquidity::Liquidity) -> (r: Liquidity)
        requires
            !(pool.kind is ZeroEx),
        ensures
            encodes(*pool, r),
            r matches Liquidity::ConstantProduct(wire) ==> ascending(wire.tokens@),
    {
        match &pool.kind {
            Kind::UniswapV2(inner) => Liquidity::ConstantProduct(
                ConstantProductPool {
                    id: pool.id,
                    address: inner.address,
                    router: inner.router,
                    gas_estimate: pool.gas,
                    tokens: constant_product_tokens(&inner.reserves),
                    fee: fixed_to_decimal(U256::from_u128(3), 3),
                },
            ),
            Kind::UniswapV3(inner) => {
                let (first, second): (H160, H160) = inner.tokens.get();
                let mut tokens: Vec<H160> = Vec::new();
                tokens.push(first);
                tokens.push(second);
                assert(tokens@ =~= seq![first, second]);
                Liquidity::ConcentratedLiquidity(
                    ConcentratedLiquidityPool {
                        id: pool.id,
                        address: inner.address,
                        router: inner.router,
                        gas_estimate: pool.gas,
                        tokens,
                        sqrt_price: inner.sqrt_price,
                        liquidity: inner.liquidity,
                        tick: inner.tick,
                        liquidity_net: inner.liquidity_net.clone(),
                        fee: v3_fee_to_decimal(&inner.fee),
                    },
                )
            },
            Kind::BalancerV2Stable(inner) => Liquidity::Stable(
                StablePool {
                    id: pool.id,
                    address: inner.id.address(),
                    balancer_pool_id: inner.id.word,
                    gas_estimate: pool.gas,
                    tokens: stable_tokens(&inner.reserves),
                    amplification_parameter: amplification_to_decimal(
                        &inner.amplification_parameter,
                    ),
                    fee: fee_to_decimal(inner.fee),
                },
            ),
            Kind::BalancerV2Weighted(inner) => Liquidity::WeightedProduct(
                WeightedProductPool {
                    id: pool.id,
                    address: inner.id.address(),
                    balancer_pool_id: inner.id.word,
                    gas_estimate: pool.gas,
                    tokens: weighted_tokens(&inner.reserves),
                    fee: fee_to_decimal(inner.fee),
                    version: match inner.version {
                        weighted::Version::V0 => WeightedProductVersion::V0,
                        weighted::Version::V3Plus => WeightedProductVersion::V3Plus,
                    },
                },
            ),
            Kind::Swapr(inner) => Liquidity::ConstantProduct(
                ConstantProductPool {
                    id: pool.id,
                    address: inner.base.address,
                    router: inner.base.router,
                    gas_estimate: pool.gas,
                    tokens: constant_product_tokens(&inner.base.reserves),
                    fee: fixed_to_decimal(U256::from_u128(inner.fee.bps() as u128), 4),
                },
            ),
            Kind::ZeroEx(_) => vstd::pervasive::unreached(),
        }
    }
}

} // verus!
