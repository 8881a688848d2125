//! What the gas endpoint is asked, and how the liquidity that comes with the
//! question is read into the driver's model.

use crate::arith::{lemma_lowest_terms_value, lemma_power_monotonic, lowest_terms, pow10, power};
use crate::decimal::{exact_quotient, is_quotient, lemma_same_value_symmetric,
    lemma_same_value_transitive, rescaled, same_value, Decimal, DecimalView};
use crate::dto::entries::keys;
use crate::dto::liquidity as dto;
use crate::dto::liquidity::{stable_entries, stable_into_entries, weighted_entries,
    weighted_into_entries};
use crate::eth::{Asset, H160, U256};
use crate::fixed_point::{decimal_to_fixed, exact_at, fixed_point, lemma_same_value_of_cut};
use crate::liquidity::balancer::{stable, weighted, Fee, Id, ScalingFactor};
use crate::liquidity::uniswap::{v2, v3};
use crate::liquidity::{distinct, ordered, Kind, Liquidity, TokenPair};
use vstd::prelude::*;

verus! {

/// A request for the gas estimates of some solutions. The solutions and the
/// auction are read elsewhere and pass through as they came.
#[derive(Debug)]
pub struct GasRequest<S, A> {
    pub solutions: S,
    pub auction: A,
    pub liquidity: Vec<dto::Liquidity>,
}

/// Why a request cannot be read.
#[derive(Clone, Copy, Debug, PartialEq, Eq, Structural)]
pub enum Error {
    LiquidityError,
    EncodeSolutionError,
    EncodeAuctionError,
}

/// The kinds of pool that a request may list.
#[derive(Clone, Copy, Debug, PartialEq, Eq, Structural)]
pub enum Subject {
    ConstantProduct,
    WeightedProduct,
    Stable,
    ConcentratedLiquidity,
    LimitOrder,
}

/// A note for the log on the part of a request that could not be read: the
/// place of the pool in the request's liquidity, and its kind. The error
/// that the caller is answered with says none of this.
#[derive(Clone, Copy, Debug, PartialEq, Eq, Structural)]
pub struct InvalidDto {
    pub index: usize,
    pub subject: Subject,
}

impl Subject {
    /// The kind in words.
    pub fn describe(&self) -> (r: &'static str)
        ensures
            r@ == match self {
                Subject::ConstantProduct => "constant product pool"@,
                Subject::WeightedProduct => "weighted product pool"@,
                Subject::Stable => "stable pool"@,
                Subject::ConcentratedLiquidity => "concentrated liquidity pool"@,
                Subject::LimitOrder => "foreign limit order, which is not supported"@,
            },
    {
        match self {
            Subject::ConstantProduct => "constant product pool",
            Subject::WeightedProduct => "weighted product pool",
            Subject::Stable => "stable pool",
            Subject::ConcentratedLiquidity => "concentrated liquidity pool",
            Subject::LimitOrder => "foreign limit order, which is not supported",
        }
    }
}

impl Error {
    /// The HTTP status that the error is answered with: each of the three
    /// says that the request was not understood.
    pub fn status(&self) -> (r: u16)
        ensures
            r == 400,
    {
        match self {
            Error::LiquidityError => 400,
            Error::EncodeSolutionError => 400,
            Error::EncodeAuctionError => 400,
        }
    }

    /// The error in words.
    pub fn message(&self) -> (r: &'static str)
        ensures
            r@ == match self {
                Error::LiquidityError => "error parsing liquidity"@,
                Error::EncodeSolutionError => "error parsing solutions"@,
                Error::EncodeAuctionError => "error parsing auction"@,
            },
    {
        match self {
            Error::LiquidityError => "error parsing liquidity",
            Error::EncodeSolutionError => "error parsing solutions",
            Error::EncodeAuctionError => "error parsing auction",
        }
    }
}

/// The number of fractional digits of a fee, a weight and a scaling factor.
pub const FIXED_POINT_SCALE: i64 = 18;

/// The number of fractional digits of an amplification factor, which is a
/// number of thousandths.
pub const AMPLIFICATION_SCALE: i64 = 3;

/// The number of fractional digits of the fee of a concentrated-liquidity
/// pool, which is a number of millionths.
pub const V3_FEE_SCALE: i64 = 6;

/// The fee of a concentrated-liquidity pool that `fee` stands for: its first
/// six fractional digits over a million, in lowest terms. There is none
/// where `fee` is negative or its digits do not fit in 32 bits.
pub open spec fn v3_fee(fee: DecimalView) -> Option<(nat, nat)> {
    match fixed_point(fee, 6) {
        Some(millionths) => if millionths <= u32::MAX {
            Some(lowest_terms(millionths, 1_000_000))
        } else {
            None
        },
        None => None,
    }
}

/// Reading a fee keeps its first six fractional digits and no more. The
/// fraction that is read has the value of the fee cut off after the sixth
/// digit. Written back as a decimal it is that cut-off number, which is the
/// fee itself only where the fee had no further digit.
pub proof fn lemma_v3_fee_round_trip(fee: DecimalView, rendered: DecimalView)
    requires
        v3_fee(fee) is Some,
        is_quotient(v3_fee(fee).unwrap().0 as int, v3_fee(fee).unwrap().1 as int, rendered),
    ensures
        v3_fee(fee).unwrap().1 > 0,
        v3_fee(fee).unwrap().0 * 1_000_000 == rescaled(fee, 6).unscaled * v3_fee(fee).unwrap().1,
        same_value(rendered, rescaled(fee, 6)),
        same_value(rendered, fee) <==> exact_at(fee, 6),
{
    let cut = rescaled(fee, 6);
    let millionths = cut.unscaled as nat;
    let (numer, denom) = lowest_terms(millionths, 1_000_000);
    lemma_lowest_terms_value(millionths, 1_000_000);
    assert(pow10(6) == 1_000_000) by {
        reveal_with_fuel(power, 7);
    }
    assert(pow10(10) == 10_000_000_000) by {
        reveal_with_fuel(power, 11);
    }
    lemma_power_monotonic(10, 10, 100);
    assert(exact_quotient(numer as int, denom as int, cut));
    lemma_same_value_of_cut(fee, 6);
    lemma_same_value_transitive(rendered, cut, fee);
    lemma_same_value_symmetric(rendered, cut);
    lemma_same_value_transitive(cut, rendered, fee);
}

/// Reads a swap fee. Fails where the fee is negative or, at 18 fractional
/// digits, takes more than 256 bits.
pub fn decimal_to_fee(fee: Decimal) -> (r: Result<Fee, Error>)
    ensures
        match r {
            Ok(made) => fixed_point(fee@, 18) == Some(made.raw()@),
            Err(e) => e == Error::LiquidityError && fixed_point(fee@, 18) is None,
        },
{
    match decimal_to_fixed(&fee, FIXED_POINT_SCALE) {
        Ok(raw) => Ok(Fee::from_raw(raw)),
        Err(_) => Err(Error::LiquidityError),
    }
}

/// Reads a weight. Fails where the weight is negative or, at 18 fractional
/// digits, takes more than 256 bits.
pub fn decimal_to_weight(weight: Decimal) -> (r: Result<weighted::Weight, Error>)
    ensures
        match r {
            Ok(made) => fixed_point(weight@, 18) == Some(made.raw()@),
            Err(e) => e == Error::LiquidityError && fixed_point(weight@, 18) is None,
        },
{
    match decimal_to_fixed(&weight, FIXED_POINT_SCALE) {
        Ok(raw) => Ok(weighted::Weight::from_raw(raw)),
        Err(_) => Err(Error::LiquidityError),
    }
}

/// Reads a scaling factor. Fails where the factor is negative or, at 18
/// fractional digits, takes more than 256 bits.
pub fn decimal_to_scaling_factor(scaling_factor: Decimal) -> (r: Result<ScalingFactor, Error>)
    ensures
        match r {
            Ok(made) => fixed_point(scaling_factor@, 18) == Some(made.raw()@),
            Err(e) => e == Error::LiquidityError && fixed_point(scaling_factor@, 18) is None,
        },
{
    match decimal_to_fixed(&scaling_factor, FIXED_POINT_SCALE) {
        Ok(raw) => Ok(ScalingFactor::from_raw(raw)),
        Err(_) => Err(Error::LiquidityError),
    }
}

/// Reads an amplification parameter as a number of thousandths over a
/// thousand. Fails where the parameter is negative or its thousandths take
/// more than 256 bits.
pub fn decimal_to_amp_param(amp_param: Decimal) -> (r: Result<
    stable::AmplificationParameter,
    Error,
>)
    ensures
        match r {
            Ok(made) => {
                &&& made.wf()
                &&& fixed_point(amp_param@, 3) == Some(made.spec_factor()@)
                &&& made.spec_precision()@ == 1000
            },
            Err(e) => e == Error::LiquidityError && fixed_point(amp_param@, 3) is None,
        },
{
    match decimal_to_fixed(&amp_param, AMPLIFICATION_SCALE) {
        Ok(factor) => match stable::AmplificationParameter::new(factor, U256::from_u128(1000)) {
            Ok(made) => Ok(made),
            Err(_) => Err(Error::LiquidityError),
        },
        Err(_) => Err(Error::LiquidityError),
    }
}

/// Reads the fee of a concentrated-liquidity pool. Digits beyond the sixth
/// fractional one are dropped. Fails where the fee is negative or its
/// millionths do not fit in 32 bits.
pub fn decimal_to_v3_fee(fee: Decimal) -> (r: Result<v3::Fee, Error>)
    ensures
        match r {
            Ok(made) => made.wf() && v3_fee(fee@) == Some((made.numer(), made.denom())),
            Err(e) => e == Error::LiquidityError && v3_fee(fee@) is None,
        },
{
    match decimal_to_fixed(&fee, V3_FEE_SCALE) {
        Ok(raw) => match raw.to_u32() {
            Some(millionths) => match v3::Fee::new(millionths, 1_000_000u32) {
                Some(made) => Ok(made),
                None => Err(Error::LiquidityError),
            },
            None => Err(Error::LiquidityError),
        },
        Err(_) => Err(Error::LiquidityError),
    }
}

/// The driver's form of the version of a weighted pool.
pub open spec fn domain_version(version: dto::WeightedProductVersion) -> weighted::Version {
    match version {
        dto::WeightedProductVersion::V0 => weighted::Version::V0,
        dto::WeightedProductVersion::V3Plus => weighted::Version::V3Plus,
    }
}

/// The asset that an entry of a constant-product pool stands for.
pub open spec fn entry_asset(entry: (H160, dto::ConstantProductReserve)) -> Asset {
    Asset { token: entry.0, amount: entry.1.balance }
}

/// Whether an entry of a weighted pool can be read.
pub open spec fn weighted_reserve_decodable(entry: (H160, dto::WeightedProductReserve)) -> bool {
    &&& fixed_point(entry.1.weight@, 18) is Some
    &&& fixed_point(entry.1.scaling_factor@, 18) is Some
}

/// Whether `reserve` is what the entry `entry` of a weighted pool says.
pub open spec fn is_decoded_weighted_reserve(
    entry: (H160, dto::WeightedProductReserve),
    reserve: weighted::Reserve,
) -> bool {
    &&& reserve.asset == Asset { token: entry.0, amount: entry.1.balance }
    &&& fixed_point(entry.1.weight@, 18) == Some(reserve.weight.raw()@)
    &&& fixed_point(entry.1.scaling_factor@, 18) == Some(reserve.scale.raw()@)
}

/// Whether an entry of a stable pool can be read.
pub open spec fn stable_reserve_decodable(entry: (H160, dto::StableReserve)) -> bool {
    fixed_point(entry.1.scaling_factor@, 18) is Some
}

/// Whether `reserve` is what the entry `entry` of a stable pool says.
pub open spec fn is_decoded_stable_reserve(
    entry: (H160, dto::StableReserve),
    reserve: stable::Reserve,
) -> bool {
    &&& reserve.asset == Asset { token: entry.0, amount: entry.1.balance }
    &&& fixed_point(entry.1.scaling_factor@, 18) == Some(reserve.scale.raw()@)
}

/// Whether a pool on the wire can be read: it has as many tokens as its kind
/// asks for, no token twice, and numbers that have the fixed-point form
/// that their place asks for. A foreign limit order never can.
pub open spec fn decodable(wire: dto::Liquidity) -> bool {
    match wire {
        dto::Liquidity::ConstantProduct(pool) => {
            &&& pool.tokens@.len() == 2
            &&& pool.tokens@[0].0 != pool.tokens@[1].0
        },
        dto::Liquidity::WeightedProduct(pool) => {
            &&& forall|i: int|
                0 <= i < weighted_entries(pool.tokens).len() ==> weighted_reserve_decodable(
                    #[trigger] weighted_entries(pool.tokens)[i],
                )
            &&& fixed_point(pool.fee@, 18) is Some
        },
        dto::Liquidity::Stable(pool) => {
            &&& forall|i: int|
                0 <= i < stable_entries(pool.tokens).len() ==> stable_reserve_decodable(
                    #[trigger] stable_entries(pool.tokens)[i],
                )
            &&& fixed_point(pool.fee@, 18) is Some
            &&& fixed_point(pool.amplification_parameter@, 3) is Some
        },
        dto::Liquidity::ConcentratedLiquidity(pool) => {
            &&& pool.tokens@.len() == 2
            &&& pool.tokens@[0] != pool.tokens@[1]
            &&& v3_fee(pool.fee@) is Some
        },
        dto::Liquidity::LimitOrder(_) => false,
    }
}

/// Whether `pool` is what the constant-product pool `wire` says.
pub open spec fn is_decoded_constant_product(wire: dto::ConstantProductPool, pool: Liquidity) -> bool {
    &&& pool.id == wire.id
    &&& pool.gas == wire.gas_estimate
    &&& pool.kind matches Kind::UniswapV2(inner)
    &&& inner.address == wire.address
    &&& inner.router == wire.router
    &&& inner.reserves.assets() == v2::ordered(
        entry_asset(wire.tokens@[0]),
        entry_asset(wire.tokens@[1]),
    )
}

/// Whether `pool` is what the weighted pool `wire` says, in the vault
/// `vault`.
pub open spec fn is_decoded_weighted_product(
    wire: dto::WeightedProductPool,
    vault: H160,
    pool: Liquidity,
) -> bool {
    &&& pool.id == wire.id
    &&& pool.gas == wire.gas_estimate
    &&& pool.kind matches Kind::BalancerV2Weighted(inner)
    &&& inner.vault == vault
    &&& inner.id.word == wire.balancer_pool_id
    &&& inner.reserves.reserves().len() == weighted_entries(wire.tokens).len()
    &&& forall|i: int|
        0 <= i < weighted_entries(wire.tokens).len() ==> is_decoded_weighted_reserve(
            #[trigger] weighted_entries(wire.tokens)[i],
            inner.reserves.reserves()[i],
        )
    &&& fixed_point(wire.fee@, 18) == Some(inner.fee.raw()@)
    &&& inner.version == domain_version(wire.version)
}

/// Whether `pool` is what the stable pool `wire` says, in the vault `vault`.
pub open spec fn is_decoded_stable(wire: dto::StablePool, vault: H160, pool: Liquidity) -> bool {
    &&& pool.id == wire.id
    &&& pool.gas == wire.gas_estimate
    &&& pool.kind matches Kind::BalancerV2Stable(inner)
    &&& inner.vault == vault
    &&& inner.id.word == wire.balancer_pool_id
    &&& inner.reserves.reserves().len() == stable_entries(wire.tokens).len()
    &&& forall|i: int|
        0 <= i < stable_entries(wire.tokens).len() ==> is_decoded_stable_reserve(
            #[trigger] stable_entries(wire.tokens)[i],
            inner.reserves.reserves()[i],
        )
    &&& fixed_point(wire.fee@, 18) == Some(inner.fee.raw()@)
    &&& fixed_point(wire.amplification_parameter@, 3) == Some(
        inner.amplification_parameter.spec_factor()@,
    )
    &&& inner.amplification_parameter.spec_precision()@ == 1000
}

/// Whether `pool` is what the concentrated-liquidity pool `wire` says.
pub open spec fn is_decoded_concentrated_liquidity(
    wire: dto::ConcentratedLiquidityPool,
    pool: Liquidity,
) -> bool {
    &&& pool.id == wire.id
    &&& pool.gas == wire.gas_estimate
    &&& pool.kind matches Kind::UniswapV3(inner)
    &&& inner.router == wire.router
    &&& inner.address == wire.address
    &&& inner.tokens.tokens() == ordered(wire.tokens@[0], wire.tokens@[1])
    &&& inner.sqrt_price == wire.sqrt_price
    &&& inner.liquidity == wire.liquidity
    &&& inner.tick == wire.tick
    &&& inner.liquidity_net@ == wire.liquidity_net@
    &&& v3_fee(wire.fee@) == Some((inner.fee.numer(), inner.fee.denom()))
}

/// Whether `pool` is what the pool `wire` says, with `vault` as the vault of
/// Balancer pools.
pub open spec fn is_decoded(wire: dto::Liquidity, vault: H160, pool: Liquidity) -> bool {
    &&& pool.kind.wf()
    &&& match wire {
        dto::Liquidity::ConstantProduct(w) => is_decoded_constant_product(w, pool),
        dto::Liquidity::WeightedProduct(w) => is_decoded_weighted_product(w, vault, pool),
        dto::Liquidity::Stable(w) => is_decoded_stable(w, vault, pool),
        dto::Liquidity::ConcentratedLiquidity(w) => is_decoded_concentrated_liquidity(w, pool),
        dto::Liquidity::LimitOrder(_) => false,
    }
}

/// Reads a constant-product pool.
fn decode_constant_product(wire: dto::ConstantProductPool) -> (r: Result<Liquidity, Error>)
    ensures
        match r {
            Ok(pool) => {
                &&& decodable(dto::Liquidity::ConstantProduct(wire))
                &&& pool.kind.wf()
                &&& is_decoded_constant_product(wire, pool)
            },
            Err(e) => e == Error::LiquidityError && !decodable(dto::Liquidity::ConstantProduct(wire)),
        },
{
    let mut assets: Vec<Asset> = Vec::new();
    let n: usize = wire.tokens.len();
    let mut i: usize = 0;
    while i < n
        invariant
            n == wire.tokens@.len(),
            0 <= i <= n,
            assets@.len() == i,
            forall|k: int| 0 <= k < i ==> assets@[k] == entry_asset(#[trigger] wire.tokens@[k]),
        decreases n - i,
    {
        let entry: (H160, dto::ConstantProductReserve) = wire.tokens[i];
        assets.push(Asset { token: entry.0, amount: entry.1.balance });
        i = i + 1;
    }
    match v2::Reserves::from_assets(&assets) {
        Ok(reserves) => Ok(
            Liquidity {
                id: wire.id,
                gas: wire.gas_estimate,
                kind: Kind::UniswapV2(
                    v2::Pool { address: wire.address, router: wire.router, reserves },
                ),
            },
        ),
        Err(_) => Err(Error::LiquidityError),
    }
}

/// Reads the reserves of a weighted pool.
fn decode_weighted_reserves(entries: Vec<(H160, dto::WeightedProductReserve)>) -> (r: Result<
    weighted::Reserves,
    Error,
>)
    requires
        distinct(keys(entries@)),
    ensures
        match r {
            Ok(reserves) => {
                &&& reserves.wf()
                &&& reserves.reserves().len() == entries@.len()
                &&& forall|i: int|
                    0 <= i < entries@.len() ==> weighted_reserve_decodable(#[trigger] entries@[i])
                        && is_decoded_weighted_reserve(entries@[i], reserves.reserves()[i])
            },
            Err(e) => e == Error::LiquidityError && exists|i: int|
                0 <= i < entries@.len() && !weighted_reserve_decodable(#[trigger] entries@[i]),
        },
{
    let mut reserves: Vec<weighted::Reserve> = Vec::new();
    for entry in it: entries.into_iter()
        invariant
            it.seq() == entries@,
            reserves@.len() == it.index(),
            forall|i: int|
                0 <= i < it.index() ==> weighted_reserve_decodable(#[trigger] it.seq()[i])
                    && is_decoded_weighted_reserve(it.seq()[i], reserves@[i]),
    {
        let ghost at = it.index();
        let (token, reserve): (H160, dto::WeightedProductReserve) = entry;
        let weight = match decimal_to_weight(reserve.weight) {
            Ok(weight) => weight,
            Err(e) => {
                assert(!weighted_reserve_decodable(entries@[at]));
                return Err(e);
            },
        };
        let scale = match decimal_to_scaling_factor(reserve.scaling_factor) {
            Ok(scale) => scale,
            Err(e) => {
                assert(!weighted_reserve_decodable(entries@[at]));
                return Err(e);
            },
        };
        reserves.push(
            weighted::Reserve { asset: Asset { token, amount: reserve.balance }, weight, scale },
        );
    }
    assert(weighted::tokens_of(reserves@) =~= keys(entries@));
    match weighted::Reserves::new(reserves) {
        Ok(made) => Ok(made),
        Err(_) => Err(Error::LiquidityError),
    }
}

/// Reads a weighted pool.
fn decode_weighted_product(wire: dto::WeightedProductPool, vault: H160) -> (r: Result<
    Liquidity,
    Error,
>)
    ensures
        match r {
            Ok(pool) => {
                &&& decodable(dto::Liquidity::WeightedProduct(wire))
                &&& pool.kind.wf()
                &&& is_decoded_weighted_product(wire, vault, pool)
            },
            Err(e) => e == Error::LiquidityError && !decodable(
                dto::Liquidity::WeightedProduct(wire),
            ),
        },
{
    let reserves = decode_weighted_reserves(weighted_into_entries(wire.tokens))?;
    let fee = decimal_to_fee(wire.fee)?;
    Ok(
        Liquidity {
            id: wire.id,
            gas: wire.gas_estimate,
            kind: Kind::BalancerV2Weighted(
                weighted::Pool {
                    vault,
                    id: Id { word: wire.balancer_pool_id },
                    reserves,
                    fee,
                    version: match wire.version {
                        dto::WeightedProductVersion::V0 => weighted::Version::V0,
                        dto::WeightedProductVersion::V3Plus => weighted::Version::V3Plus,
                    },
                },
            ),
        },
    )
}

/// Reads the reserves of a stable pool.
fn decode_stable_reserves(entries: Vec<(H160, dto::StableReserve)>) -> (r: Result<
    stable::Reserves,
    Error,
>)
    requires
        distinct(keys(entries@)),
    ensures
        match r {
            Ok(reserves) => {
                &&& reserves.wf()
                &&& reserves.reserves().len() == entries@.len()
                &&& forall|i: int|
                    0 <= i < entries@.len() ==> stable_reserve_decodable(#[trigger] entries@[i])
                        && is_decoded_stable_reserve(entries@[i], reserves.reserves()[i])
            },
            Err(e) => e == Error::LiquidityError && exists|i: int|
                0 <= i < entries@.len() && !stable_reserve_decodable(#[trigger] entries@[i]),
        },
{
    let mut reserves: Vec<stable::Reserve> = Vec::new();
    for entry in it: entries.into_iter()
        invariant
            it.seq() == entries@,
            reserves@.len() == it.index(),
            forall|i: int|
                0 <= i < it.index() ==> stable_reserve_decodable(#[trigger] it.seq()[i])
                    && is_decoded_stable_reserve(it.seq()[i], reserves@[i]),
    {
        let ghost at = it.index();
        let (token, reserve): (H160, dto::StableReserve) = entry;
        let scale = match decimal_to_scaling_factor(reserve.scaling_factor) {
            Ok(scale) => scale,
            Err(e) => {
                assert(!stable_reserve_decodable(entries@[at]));
                return Err(e);
            },
        };
        reserves.push(stable::Reserve { asset: Asset { token, amount: reserve.balance }, scale });
    }
    assert(stable::tokens_of(reserves@) =~= keys(entries@));
    match stable::Reserves::new(reserves) {
        Ok(made) => Ok(made),
        Err(_) => Err(Error::LiquidityError),
    }
}

/// Reads a stable pool.
fn decode_stable(wire: dto::StablePool, vault: H160) -> (r: Result<Liquidity, Error>)
    ensures
        match r {
            Ok(pool) => {
                &&& decodable(dto::Liquidity::Stable(wire))
                &&& pool.kind.wf()
                &&& is_decoded_stable(wire, vault, pool)
            },
            Err(e) => e == Error::LiquidityError && !decodable(dto::Liquidity::Stable(wire)),
        },
{
    let reserves = decode_stable_reserves(stable_into_entries(wire.tokens))?;
    let fee = decimal_to_fee(wire.fee)?;
    let amplification_parameter = decimal_to_amp_param(wire.amplification_parameter)?;
    Ok(
        Liquidity {
            id: wire.id,
            gas: wire.gas_estimate,
            kind: Kind::BalancerV2Stable(
                stable::Pool {
                    vault,
                    id: Id { word: wire.balancer_pool_id },
                    reserves,
                    fee,
                    amplification_parameter,
                },
            ),
        },
    )
}

/// Reads a concentrated-liquidity pool.
fn decode_concentrated_liquidity(wire: dto::ConcentratedLiquidityPool) -> (r: Result<
    Liquidity,
    Error,
>)
    ensures
        match r {
            Ok(pool) => {
                &&& decodable(dto::Liquidity::ConcentratedLiquidity(wire))
                &&& pool.kind.wf()
                &&& is_decoded_concentrated_liquidity(wire, pool)
            },
            Err(e) => e == Error::LiquidityError && !decodable(
                dto::Liquidity::ConcentratedLiquidity(wire),
            ),
        },
{
    if wire.tokens.len() != 2 {
        return Err(Error::LiquidityError);
    }
    let tokens = match TokenPair::new(wire.tokens[0], wire.tokens[1]) {
        Ok(tokens) => tokens,
        Err(_) => {
            return Err(Error::LiquidityError);
        },
    };
    let fee = decimal_to_v3_fee(wire.fee)?;
    Ok(
        Liquidity {
            id: wire.id,
            gas: wire.gas_estimate,
            kind: Kind::UniswapV3(
                v3::Pool {
                    router: wire.router,
                    address: wire.address,
                    tokens,
                    sqrt_price: wire.sqrt_price,
                    liquidity: wire.liquidity,
                    tick: wire.tick,
                    liquidity_net: wire.liquidity_net,
                    fee,
                },
            ),
        },
    )
}

/// The kind of a pool on the wire.
pub open spec fn subject_of(wire: dto::Liquidity) -> Subject {
    match wire {
        dto::Liquidity::ConstantProduct(_) => Subject::ConstantProduct,
        dto::Liquidity::WeightedProduct(_) => Subject::WeightedProduct,
        dto::Liquidity::Stable(_) => Subject::Stable,
        dto::Liquidity::ConcentratedLiquidity(_) => Subject::ConcentratedLiquidity,
        dto::Liquidity::LimitOrder(_) => Subject::LimitOrder,
    }
}

/// Whether the pool at `index` is the first of `wires` that cannot be read.
pub open spec fn first_unreadable(wires: Seq<dto::Liquidity>, index: int) -> bool {
    &&& 0 <= index < wires.len()
    &&& !decodable(wires[index])
    &&& forall|j: int| 0 <= j < index ==> decodable(#[trigger] wires[j])
}

/// The kind of a pool on the wire.
fn subject(wire: &dto::Liquidity) -> (r: Subject)
    ensures
        r == subject_of(*wire),
{
    match wire {
        dto::Liquidity::ConstantProduct(_) => Subject::ConstantProduct,
        dto::Liquidity::WeightedProduct(_) => Subject::WeightedProduct,
        dto::Liquidity::Stable(_) => Subject::Stable,
        dto::Liquidity::ConcentratedLiquidity(_) => Subject::ConcentratedLiquidity,
        dto::Liquidity::LimitOrder(_) => Subject::LimitOrder,
    }
}

/// Reads one pool from the wire. Balancer pools are taken to live in the
/// vault `vault`. Fails on a pool that cannot be read, and on every foreign
/// limit order.
pub fn decode_liquidity(wire: dto::Liquidity, vault: H160) -> (r: Result<Liquidity, Error>)
    ensures
        match r {
            Ok(pool) => decodable(wire) && is_decoded(wire, vault, pool),
            Err(e) => e == Error::LiquidityError && !decodable(wire),
        },
{
    match wire {
        dto::Liquidity::ConstantProduct(pool) => decode_constant_product(pool),
        dto::Liquidity::WeightedProduct(pool) => decode_weighted_product(pool, vault),
        dto::Liquidity::Stable(pool) => decode_stable(pool, vault),
        dto::Liquidity::ConcentratedLiquidity(pool) => decode_concentrated_liquidity(pool),
        dto::Liquidity::LimitOrder(_) => Err(Error::LiquidityError),
    }
}

impl<S, A> GasRequest<S, A> {
    /// Reads the liquidity of the request, all of it or none. Balancer pools
    /// are taken to live in the vault `vault`.
    ///
    /// On success the pools come back in the order of the request, together
    /// with the auction and the solutions as they came, for those who read
    /// them. At the first pool that cannot be read the request fails with
    /// `LiquidityError`: no pool after it is looked at, the auction and the
    /// solutions are gone unread, and `log` gains a note of the pool's place
    /// and kind.
    pub fn into_domain(self, vault: H160, log: &mut Vec<InvalidDto>) -> (r: Result<
        (A, S, Vec<Liquidity>),
        Error,
    >)
        ensures
            match r {
                Ok((auction, solutions, pools)) => {
                    &&& auction == self.auction
                    &&& solutions == self.solutions
                    &&& pools@.len() == self.liquidity@.len()
                    &&& forall|i: int|
                        0 <= i < self.liquidity@.len() ==> decodable(#[trigger] self.liquidity@[i])
                            && is_decoded(self.liquidity@[i], vault, pools@[i])
                    &&& final(log)@ == old(log)@
                },
                Err(e) => {
                    &&& e == Error::LiquidityError
                    &&& exists|i: int|
                        first_unreadable(self.liquidity@, i) && final(log)@ == old(log)@.push(
                            InvalidDto {
                                index: i as usize,
                                subject: subject_of(#[trigger] self.liquidity@[i]),
                            },
                        )
                },
            },
    {
        let mut pools: Vec<Liquidity> = Vec::new();
        let ghost wires = self.liquidity@;
        let ghost noted = log@;
        for wire in it: self.liquidity.into_iter()
            invariant
                it.seq() == wires,
                pools@.len() == it.index(),
                noted == old(log)@,
                log@ == noted,
                forall|i: int|
                    0 <= i < it.index() ==> decodable(#[trigger] it.seq()[i]) && is_decoded(
                        it.seq()[i],
                        vault,
                        pools@[i],
                    ),
        {
            let ghost at = it.index();
            let kind: Subject = subject(&wire);
            match decode_liquidity(wire, vault) {
                Ok(pool) => {
                    pools.push(pool);
                },
                Err(e) => {
                    log.push(InvalidDto { index: pools.len(), subject: kind });
                    assert(first_unreadable(wires, at));
                    assert(log@ == noted.push(
                        InvalidDto { index: at as usize, subject: subject_of(wires[at]) },
                    ));
                    return Err(e);
                },
            }
        }
        Ok((self.auction, self.solutions, pools))
    }
}

} // verus!
