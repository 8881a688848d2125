//! The gas endpoint: reading a request, and what follows from each outcome.

use bigdecimal::BigDecimal;
use driver::decimal::Decimal;
use driver::dto::liquidity::{
    ConcentratedLiquidityPool, ConstantProductPool, ConstantProductReserve, ForeignLimitOrder,
    Liquidity as WireLiquidity, StablePool, StableReserve, WeightedProductPool,
    WeightedProductReserve, WeightedProductVersion,
};
use driver::eth::{Asset, H160, H256, U256};
use driver::gas::request::{decode_liquidity, Error, GasRequest, InvalidDto, Subject};
use driver::gas::response::GasResponse;
use driver::gas::{start, step, Action, Event, Phase};
use driver::liquidity::Kind;
use indexmap::IndexMap;
use std::collections::BTreeMap;
use std::str::FromStr;

fn dec(text: &str) -> Decimal {
    let (digits, scale) = BigDecimal::from_str(text).unwrap().into_bigint_and_exponent();
    Decimal { unscaled: digits.to_signed_bytes_be(), scale }
}

fn u256(value: u128) -> U256 {
    U256 { hi: 0, lo: value }
}

fn token(n: u32) -> H160 {
    H160 { hi: 0, lo: n }
}

fn constant_product(tokens: &[(u32, u128)]) -> WireLiquidity {
    WireLiquidity::ConstantProduct(ConstantProductPool {
        id: 1,
        address: token(100),
        router: token(101),
        gas_estimate: u256(90_000),
        tokens: tokens
            .iter()
            .map(|(n, balance)| (token(*n), ConstantProductReserve { balance: u256(*balance) }))
            .collect(),
        fee: dec("0.003"),
    })
}

fn limit_order(id: usize, amount: u128) -> WireLiquidity {
    WireLiquidity::LimitOrder(ForeignLimitOrder {
        id,
        address: token(1),
        gas_estimate: u256(amount),
        hash: [7; 32],
        maker_token: token(2),
        taker_token: token(3),
        maker_amount: u256(amount),
        taker_amount: u256(amount + 1),
        taker_token_fee_amount: u256(0),
    })
}

fn weighted(weight: &str, scaling_factor: &str, fee: &str) -> WireLiquidity {
    let mut tokens = IndexMap::new();
    tokens.insert(
        token(1),
        WeightedProductReserve { balance: u256(1), scaling_factor: dec("1"), weight: dec("0.5") },
    );
    tokens.insert(
        token(2),
        WeightedProductReserve {
            balance: u256(2),
            scaling_factor: dec(scaling_factor),
            weight: dec(weight),
        },
    );
    WireLiquidity::WeightedProduct(WeightedProductPool {
        id: 2,
        address: token(5),
        balancer_pool_id: H256 { hi: 1, lo: 1 },
        gas_estimate: u256(1),
        tokens,
        fee: dec(fee),
        version: WeightedProductVersion::V3Plus,
    })
}

fn stable(scaling_factor: &str, fee: &str, amplification: &str) -> WireLiquidity {
    let mut tokens = IndexMap::new();
    tokens.insert(token(2), StableReserve { balance: u256(2), scaling_factor: dec("1") });
    tokens.insert(token(1), StableReserve { balance: u256(1), scaling_factor: dec(scaling_factor) });
    WireLiquidity::Stable(StablePool {
        id: 3,
        address: token(5),
        balancer_pool_id: H256 { hi: 2, lo: 2 },
        gas_estimate: u256(1),
        tokens,
        amplification_parameter: dec(amplification),
        fee: dec(fee),
    })
}

fn concentrated(tokens: &[u32], fee: &str) -> WireLiquidity {
    let mut liquidity_net = BTreeMap::new();
    liquidity_net.insert(10, -5_i128);
    WireLiquidity::ConcentratedLiquidity(ConcentratedLiquidityPool {
        id: 4,
        address: token(6),
        router: token(7),
        gas_estimate: u256(8),
        tokens: tokens.iter().map(|n| token(*n)).collect(),
        sqrt_price: u256(9),
        liquidity: 10,
        tick: -11,
        liquidity_net,
        fee: dec(fee),
    })
}

fn fails(wire: WireLiquidity) -> bool {
    matches!(decode_liquidity(wire, token(0)), Err(Error::LiquidityError))
}

#[test]
fn constant_product_with_one_token_fails() {
    assert!(fails(constant_product(&[(1, 1000)])));
}

#[test]
fn constant_product_needs_exactly_two_distinct_tokens() {
    assert!(fails(constant_product(&[])));
    assert!(fails(constant_product(&[(1, 1000), (2, 2000), (3, 3000)])));
    assert!(fails(constant_product(&[(1, 1000), (1, 2000)])));
    assert!(!fails(constant_product(&[(1, 1000), (2, 2000)])));
    assert!(!fails(constant_product(&[(2, 1000), (1, 2000)])));
}

#[test]
fn limit_orders_always_fail() {
    assert!(fails(limit_order(0, 0)));
    assert!(fails(limit_order(usize::MAX, u128::MAX)));
    assert!(fails(limit_order(17, 1_000_000)));
}

#[test]
fn weighted_pool_fails_on_any_number_out_of_range() {
    assert!(!fails(weighted("0.5", "1", "0.003")));
    assert!(fails(weighted("-0.5", "1", "0.003")));
    assert!(fails(weighted("1e70", "1", "0.003")));
    assert!(fails(weighted("0.5", "-1", "0.003")));
    assert!(fails(weighted("0.5", "1e70", "0.003")));
    assert!(fails(weighted("0.5", "1", "-0.003")));
    assert!(fails(weighted("0.5", "1", "1e70")));
}

#[test]
fn stable_pool_fails_on_any_number_out_of_range() {
    assert!(!fails(stable("1", "0.0001", "200")));
    assert!(fails(stable("-1", "0.0001", "200")));
    assert!(fails(stable("1", "-0.0001", "200")));
    assert!(fails(stable("1", "0.0001", "-200")));
    assert!(fails(stable("1", "0.0001", "1e80")));
}

#[test]
fn stable_pool_is_read_in_its_order() {
    let pool = decode_liquidity(stable("1000000000000", "0.0001", "200"), token(9)).unwrap();
    assert_eq!((pool.id, pool.gas), (3, u256(1)));
    match pool.kind {
        Kind::BalancerV2Stable(inner) => {
            assert_eq!(inner.vault, token(9));
            assert_eq!(inner.id.word, H256 { hi: 2, lo: 2 });
            let reserves = inner.reserves.get();
            assert_eq!(reserves.len(), 2);
            assert_eq!(reserves[0].asset, Asset { token: token(2), amount: u256(2) });
            assert_eq!(reserves[0].scale.as_raw(), u256(1_000_000_000_000_000_000));
            assert_eq!(reserves[1].asset, Asset { token: token(1), amount: u256(1) });
            assert_eq!(
                reserves[1].scale.as_raw(),
                u256(1_000_000_000_000_000_000_000_000_000_000)
            );
            assert_eq!(inner.fee.as_raw(), u256(100_000_000_000_000));
            assert_eq!(inner.amplification_parameter.factor(), u256(200_000));
            assert_eq!(inner.amplification_parameter.precision(), u256(1000));
        }
        other => panic!("decoded as {other:?}"),
    }
}

#[test]
fn concentrated_pool_is_read_as_it_is() {
    let pool = decode_liquidity(concentrated(&[5, 4], "0.0005001"), token(0)).unwrap();
    assert_eq!((pool.id, pool.gas), (4, u256(8)));
    match pool.kind {
        Kind::UniswapV3(inner) => {
            assert_eq!((inner.address, inner.router), (token(6), token(7)));
            assert_eq!(inner.tokens.get(), (token(4), token(5)));
            assert_eq!((inner.sqrt_price, inner.liquidity, inner.tick), (u256(9), 10, -11));
            assert_eq!(inner.liquidity_net.len(), 1);
            assert_eq!(inner.liquidity_net.get(&10), Some(&-5));
            let (numer, denom) = inner.fee.get();
            assert_eq!(u64::from(numer) * 1_000_000, 500 * u64::from(denom));
        }
        other => panic!("decoded as {other:?}"),
    }
}

#[test]
fn concentrated_pool_needs_a_pair_and_a_fee_in_range() {
    assert!(fails(concentrated(&[], "0.003")));
    assert!(fails(concentrated(&[1], "0.003")));
    assert!(fails(concentrated(&[1, 2, 3], "0.003")));
    assert!(fails(concentrated(&[1, 1], "0.003")));
    assert!(fails(concentrated(&[1, 2], "-0.003")));
    assert!(fails(concentrated(&[1, 2], "5000")));
    assert!(!fails(concentrated(&[1, 2], "0.003")));
}

#[test]
fn a_request_is_read_in_order() {
    let request = GasRequest {
        solutions: "solutions",
        auction: 17_u8,
        liquidity: vec![
            concentrated(&[1, 2], "0.003"),
            constant_product(&[(1, 1000), (2, 2000)]),
            weighted("0.5", "1", "0.003"),
        ],
    };
    let mut log = vec![];
    let (auction, solutions, pools) = request.into_domain(token(42), &mut log).unwrap();
    assert!(log.is_empty());
    assert_eq!((auction, solutions), (17, "solutions"));
    assert_eq!(pools.iter().map(|pool| pool.id).collect::<Vec<usize>>(), vec![4, 1, 2]);
    assert!(matches!(pools[0].kind, Kind::UniswapV3(_)));
    assert!(matches!(pools[1].kind, Kind::UniswapV2(_)));
    match &pools[2].kind {
        Kind::BalancerV2Weighted(inner) => assert_eq!(inner.vault, token(42)),
        other => panic!("decoded as {other:?}"),
    }
}

#[test]
fn a_request_without_liquidity_is_read() {
    let request = GasRequest { solutions: (), auction: (), liquidity: vec![] };
    let mut log = vec![InvalidDto { index: 9, subject: Subject::Stable }];
    let (_, _, pools) = request.into_domain(token(42), &mut log).unwrap();
    assert!(pools.is_empty());
    assert_eq!(log, vec![InvalidDto { index: 9, subject: Subject::Stable }]);
}

#[test]
fn one_unreadable_pool_fails_the_request() {
    for place in 0..3 {
        let mut liquidity = vec![
            constant_product(&[(1, 1000), (2, 2000)]),
            constant_product(&[(3, 1000), (4, 2000)]),
        ];
        liquidity.insert(place, constant_product(&[(1, 1000)]));
        let request = GasRequest { solutions: 1, auction: 2, liquidity };
        let mut log = vec![];
        assert!(matches!(request.into_domain(token(0), &mut log), Err(Error::LiquidityError)));
        assert_eq!(log, vec![InvalidDto { index: place, subject: Subject::ConstantProduct }]);
    }
    let request = GasRequest {
        solutions: 1,
        auction: 2,
        liquidity: vec![constant_product(&[(1, 1000), (2, 2000)]), limit_order(1, 1)],
    };
    let mut log = vec![];
    assert!(matches!(request.into_domain(token(0), &mut log), Err(Error::LiquidityError)));
    assert_eq!(log, vec![InvalidDto { index: 1, subject: Subject::LimitOrder }]);
}

#[test]
fn only_the_first_unreadable_pool_is_noted() {
    let request = GasRequest {
        solutions: 1,
        auction: 2,
        liquidity: vec![
            constant_product(&[(1, 1000), (2, 2000)]),
            stable("1", "0.0001", "-200"),
            weighted("-0.5", "1", "0.003"),
            concentrated(&[1], "0.003"),
        ],
    };
    let mut log = vec![InvalidDto { index: 0, subject: Subject::LimitOrder }];
    assert!(matches!(request.into_domain(token(0), &mut log), Err(Error::LiquidityError)));
    assert_eq!(
        log,
        vec![
            InvalidDto { index: 0, subject: Subject::LimitOrder },
            InvalidDto { index: 1, subject: Subject::Stable },
        ]
    );
    for (liquidity, subject) in [
        (weighted("-0.5", "1", "0.003"), Subject::WeightedProduct),
        (concentrated(&[1], "0.003"), Subject::ConcentratedLiquidity),
    ] {
        let mut log = vec![];
        let request = GasRequest { solutions: 1, auction: 2, liquidity: vec![liquidity] };
        assert!(request.into_domain(token(0), &mut log).is_err());
        assert_eq!(log, vec![InvalidDto { index: 0, subject }]);
    }
}

#[test]
fn kinds_in_words() {
    assert_eq!(Subject::ConstantProduct.describe(), "constant product pool");
    assert_eq!(Subject::WeightedProduct.describe(), "weighted product pool");
    assert_eq!(Subject::Stable.describe(), "stable pool");
    assert_eq!(Subject::ConcentratedLiquidity.describe(), "concentrated liquidity pool");
    assert_eq!(Subject::LimitOrder.describe(), "foreign limit order, which is not supported");
}

#[test]
fn errors_are_answered_as_bad_requests() {
    for error in [Error::LiquidityError, Error::EncodeSolutionError, Error::EncodeAuctionError] {
        assert_eq!(error.status(), 400);
    }
}

#[test]
fn errors_in_words() {
    assert_eq!(Error::LiquidityError.message(), "error parsing liquidity");
    assert_eq!(Error::EncodeSolutionError.message(), "error parsing solutions");
    assert_eq!(Error::EncodeAuctionError.message(), "error parsing auction");
}

#[test]
fn response_keeps_the_order_of_the_estimates() {
    let response = GasResponse::new(vec![
        (7, (u256(21000), true, "ok".to_string())),
        (9, (u256(0), false, "revert".to_string())),
    ]);
    assert_eq!(response.gas_estimates.len(), 2);
    let (id, first) = &response.gas_estimates[0];
    assert_eq!((*id, first.gas, first.success, first.message.as_str()), (7, u256(21000), true, "ok"));
    let (id, second) = &response.gas_estimates[1];
    assert_eq!((*id, second.gas, second.success, second.message.as_str()), (9, u256(0), false, "revert"));
}

#[test]
fn response_keeps_repeated_solutions() {
    let response = GasResponse::new(vec![
        (3, (u256(1), true, "a".to_string())),
        (1, (u256(2), false, "b".to_string())),
        (3, (u256(1), true, "a".to_string())),
    ]);
    let ids: Vec<u64> = response.gas_estimates.iter().map(|(id, _)| *id).collect();
    assert_eq!(ids, vec![3, 1, 3]);
    assert!(GasResponse::new(vec![]).gas_estimates.is_empty());
}

#[test]
fn a_request_that_goes_well() {
    let (phase, action) = start();
    assert_eq!(phase, Phase::DecodingAuction);
    assert!(matches!(action, Action::DecodeAuction));
    let (phase, action) = step(phase, Event::AuctionDecoded);
    assert_eq!(phase, Phase::DecodingSolutions);
    assert!(matches!(action, Action::DecodeSolutions));
    let (phase, action) = step(phase, Event::SolutionsDecoded);
    assert_eq!(phase, Phase::Estimating);
    assert!(matches!(action, Action::Estimate));
    let estimates = vec![
        (7, (u256(21000), true, "ok".to_string())),
        (9, (u256(0), false, "revert".to_string())),
    ];
    let (phase, action) = step(phase, Event::Estimated(estimates));
    assert_eq!(phase, Phase::Done);
    match action {
        Action::Respond(response) => {
            let pairs: Vec<(u64, U256, bool, &str)> = response
                .gas_estimates
                .iter()
                .map(|(id, r)| (*id, r.gas, r.success, r.message.as_str()))
                .collect();
            assert_eq!(
                pairs,
                vec![(7, u256(21000), true, "ok"), (9, u256(0), false, "revert")]
            );
        }
        other => panic!("asked to {other:?}"),
    }
}

#[test]
fn a_rejected_auction_ends_the_request() {
    let (phase, action) = step(Phase::DecodingAuction, Event::AuctionRejected);
    assert_eq!(phase, Phase::Done);
    assert!(matches!(action, Action::Reject(Error::EncodeAuctionError)));
}

#[test]
fn rejected_solutions_end_the_request() {
    let (phase, action) = step(Phase::DecodingSolutions, Event::SolutionsRejected);
    assert_eq!(phase, Phase::Done);
    assert!(matches!(action, Action::Reject(Error::EncodeSolutionError)));
}

#[test]
fn a_failed_measurement_is_handed_on() {
    let (phase, action) = step(Phase::Estimating, Event::EstimationFailed);
    assert_eq!(phase, Phase::Done);
    assert!(matches!(action, Action::Propagate));
}

#[test]
fn events_out_of_turn_end_the_request() {
    let events = || {
        vec![
            Event::AuctionDecoded,
            Event::AuctionRejected,
            Event::SolutionsDecoded,
            Event::SolutionsRejected,
            Event::Estimated(vec![]),
            Event::EstimationFailed,
        ]
    };
    for event in events() {
        let (phase, action) = step(Phase::Done, event);
        assert_eq!(phase, Phase::Done);
        assert!(matches!(action, Action::Ignore));
    }
    for (phase, in_turn) in
        [(Phase::DecodingAuction, 0..2), (Phase::DecodingSolutions, 2..4), (Phase::Estimating, 4..6)]
    {
        for (index, event) in events().into_iter().enumerate() {
            if !in_turn.contains(&index) {
                let (next, action) = step(phase, event);
                assert_eq!(next, Phase::Done);
                assert!(matches!(action, Action::Ignore));
            }
        }
    }
}
