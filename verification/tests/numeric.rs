//! Decimals, fixed-point numbers and fees, against the numbers that
//! `bigdecimal` itself computes.

use bigdecimal::BigDecimal;
use driver::decimal::Decimal;
use driver::dto::liquidity::{
    amplification_ratio, amplification_to_decimal, fee_to_decimal, scaling_factor_to_decimal,
    v3_fee_to_decimal, weight_to_decimal,
};
use driver::eth::{H160, U256};
use driver::fixed_point::{decimal_to_fixed, fixed_to_decimal, FixedPointError};
use driver::hex::{decode, encode};
use driver::gas::request::{
    decimal_to_amp_param, decimal_to_fee, decimal_to_scaling_factor, decimal_to_v3_fee,
    decimal_to_weight, Error,
};
use driver::liquidity::balancer::stable::AmplificationParameter;
use driver::liquidity::balancer::weighted::Weight;
use driver::liquidity::balancer::{Fee, Id, ScalingFactor};
use driver::liquidity::uniswap::v3;
use num::{BigInt, Signed};
use std::str::FromStr;

fn dec(text: &str) -> Decimal {
    let (digits, scale) = BigDecimal::from_str(text).unwrap().into_bigint_and_exponent();
    Decimal { unscaled: digits.to_signed_bytes_be(), scale }
}

fn big(decimal: &Decimal) -> BigDecimal {
    BigDecimal::new(BigInt::from_signed_bytes_be(&decimal.unscaled), decimal.scale)
}

fn u256(value: u128) -> U256 {
    U256 { hi: 0, lo: value }
}

#[test]
fn u256_reads_two_complement_bytes() {
    assert_eq!(U256::from_signed_be_bytes(&vec![]), Some(u256(0)));
    assert_eq!(U256::from_signed_be_bytes(&vec![0]), Some(u256(0)));
    assert_eq!(U256::from_signed_be_bytes(&vec![0x13, 0x89]), Some(u256(5001)));
    assert_eq!(U256::from_signed_be_bytes(&vec![0, 0, 0, 0xff]), Some(u256(255)));
    assert_eq!(U256::from_signed_be_bytes(&vec![0xff]), None);
    assert_eq!(U256::from_signed_be_bytes(&vec![0x80, 0]), None);
}

#[test]
fn u256_reads_up_to_256_bits() {
    let mut max = vec![0u8];
    max.extend(vec![0xffu8; 32]);
    assert_eq!(U256::from_signed_be_bytes(&max), Some(U256 { hi: u128::MAX, lo: u128::MAX }));
    let mut over = vec![1u8];
    over.extend(vec![0u8; 32]);
    assert_eq!(U256::from_signed_be_bytes(&over), None);
    let mut split = vec![0u8; 33];
    split[16] = 1;
    split[32] = 2;
    assert_eq!(U256::from_signed_be_bytes(&split), Some(U256 { hi: 1, lo: 2 }));
}

#[test]
fn u256_writes_thirty_three_bytes() {
    let value = U256 { hi: 0x0102_0304_0506_0708_090a_0b0c_0d0e_0f10, lo: 0x1112_1314_1516_1718_191a_1b1c_1d1e_1f20 };
    let bytes = value.to_signed_be_bytes();
    let expected: Vec<u8> = (0u8..=32).collect();
    assert_eq!(bytes, expected);
    assert_eq!(U256::from_signed_be_bytes(&bytes), Some(value));
    assert_eq!(
        BigInt::from_signed_bytes_be(&U256 { hi: u128::MAX, lo: u128::MAX }.to_signed_be_bytes()),
        (BigInt::from(1) << 256) - 1
    );
}

#[test]
fn u256_small_conversions() {
    assert!(U256::zero().is_zero());
    assert!(!u256(1).is_zero());
    assert!(!U256 { hi: 1, lo: 0 }.is_zero());
    assert_eq!(U256::from_u128(7), u256(7));
    assert_eq!(u256(4_294_967_295).to_u32(), Some(u32::MAX));
    assert_eq!(u256(4_294_967_296).to_u32(), None);
    assert_eq!(U256 { hi: 1, lo: 0 }.to_u32(), None);
}

#[test]
fn addresses_compare_byte_by_byte() {
    let low = H160 { hi: 0, lo: 9 };
    let mid = H160 { hi: 1, lo: 0 };
    let high = H160 { hi: 1, lo: 1 };
    assert!(low.lt(&mid));
    assert!(mid.lt(&high));
    assert!(!high.lt(&mid));
    assert!(!mid.lt(&mid));
}

#[test]
fn pool_id_starts_with_the_pool_address() {
    let id = Id {
        word: driver::eth::H256 {
            hi: 0x0102_0304_0506_0708_090a_0b0c_0d0e_0f10,
            lo: 0x1112_1314_0002_0000_0000_0000_0000_002a,
        },
    };
    assert_eq!(
        id.address(),
        H160 { hi: 0x0102_0304_0506_0708_090a_0b0c_0d0e_0f10, lo: 0x1112_1314 }
    );
}

#[test]
fn fixed_point_scales_up() {
    assert_eq!(decimal_to_fixed(&dec("0.003"), 18), Ok(u256(3_000_000_000_000_000)));
    assert_eq!(decimal_to_fixed(&dec("1"), 18), Ok(u256(1_000_000_000_000_000_000)));
    assert_eq!(decimal_to_fixed(&dec("12.5"), 1), Ok(u256(125)));
    assert_eq!(decimal_to_fixed(&dec("0"), 18), Ok(u256(0)));
}

#[test]
fn fixed_point_drops_digits_beyond_the_scale() {
    assert_eq!(decimal_to_fixed(&dec("0.0005001"), 6), Ok(u256(500)));
    assert_eq!(decimal_to_fixed(&dec("0.9999999"), 6), Ok(u256(999_999)));
    assert_eq!(decimal_to_fixed(&dec("1.29"), 1), Ok(u256(12)));
    assert_eq!(decimal_to_fixed(&dec("0.0000001"), 6), Ok(u256(0)));
    assert_eq!(decimal_to_fixed(&dec("-0.0000001"), 6), Ok(u256(0)));
}

#[test]
fn fixed_point_rejects_negative_numbers() {
    assert_eq!(decimal_to_fixed(&dec("-1"), 18), Err(FixedPointError));
    assert_eq!(decimal_to_fixed(&dec("-0.000001"), 6), Err(FixedPointError));
    assert_eq!(decimal_to_fixed(&dec("-5"), 0), Err(FixedPointError));
}

#[test]
fn fixed_point_rejects_more_than_256_bits() {
    let max = "115792089237316195423570985008687907853269984665640564039457584007913129639935";
    let over = "115792089237316195423570985008687907853269984665640564039457584007913129639936";
    assert_eq!(decimal_to_fixed(&dec(max), 0), Ok(U256 { hi: u128::MAX, lo: u128::MAX }));
    assert_eq!(decimal_to_fixed(&dec(over), 0), Err(FixedPointError));
    assert_eq!(decimal_to_fixed(&dec(max), 1), Err(FixedPointError));
    assert_eq!(decimal_to_fixed(&dec("1e60"), 18), Err(FixedPointError));
    assert_eq!(decimal_to_fixed(&dec("1e59"), 18), Ok(decimal_to_fixed(&dec("1e77"), 0).unwrap()));
}

#[test]
fn fixed_point_far_scales_do_not_reach_the_multiplication() {
    let huge = Decimal { unscaled: vec![1], scale: i64::MIN };
    assert_eq!(decimal_to_fixed(&huge, i64::MAX), Err(FixedPointError));
    let zero = Decimal { unscaled: vec![0], scale: i64::MIN };
    assert_eq!(decimal_to_fixed(&zero, i64::MAX), Ok(u256(0)));
    let tiny = Decimal { unscaled: vec![0x7f, 0xff], scale: i64::MAX };
    assert_eq!(decimal_to_fixed(&tiny, i64::MIN), Ok(u256(0)));
    let tiny_negative = Decimal { unscaled: vec![0x80, 0x00], scale: i64::MAX };
    assert_eq!(decimal_to_fixed(&tiny_negative, i64::MIN), Ok(u256(0)));
    let empty = Decimal { unscaled: vec![], scale: 3 };
    assert_eq!(decimal_to_fixed(&empty, 0), Ok(u256(0)));
}

#[test]
fn fixed_point_at_the_edge_of_the_guard() {
    // Two bytes may be cut by up to five digits before the guard answers.
    let value = Decimal { unscaled: vec![0x7f, 0xff], scale: 5 };
    assert_eq!(decimal_to_fixed(&value, 0), Ok(u256(0)));
    assert_eq!(decimal_to_fixed(&value, 1), Ok(u256(3)));
    assert_eq!(decimal_to_fixed(&value, -1), Ok(u256(0)));
    let one = Decimal { unscaled: vec![1], scale: 0 };
    assert_eq!(big(&fixed_to_decimal(decimal_to_fixed(&one, 77).unwrap(), 77)), BigDecimal::from(1));
    assert_eq!(decimal_to_fixed(&one, 78), Err(FixedPointError));
}

#[test]
fn fixed_to_decimal_reattaches_the_scale() {
    let decimal = fixed_to_decimal(u256(3_000_000_000_000_000), 18);
    assert_eq!(decimal.scale, 18);
    assert_eq!(big(&decimal), BigDecimal::from_str("0.003").unwrap());
    assert_eq!(big(&decimal).to_string(), "0.003000000000000000");
    let whole = fixed_to_decimal(U256 { hi: u128::MAX, lo: u128::MAX }, 0);
    assert_eq!(
        big(&whole).to_string(),
        "115792089237316195423570985008687907853269984665640564039457584007913129639935"
    );
}

#[test]
fn fixed_point_round_trip_keeps_exact_values() {
    for text in ["0", "1", "0.003", "123.456", "0.000000000000000001", "1e3", "79228162514.26"] {
        let value = dec(text);
        let raw = decimal_to_fixed(&value, 18).unwrap();
        assert_eq!(big(&fixed_to_decimal(raw, 18)), big(&value));
    }
}

#[test]
fn fixed_point_round_trip_loses_dropped_digits() {
    let value = dec("0.1234567890123456789");
    let raw = decimal_to_fixed(&value, 18).unwrap();
    assert_eq!(big(&fixed_to_decimal(raw, 18)), BigDecimal::from_str("0.123456789012345678").unwrap());
    assert_ne!(big(&fixed_to_decimal(raw, 18)), big(&value));
}

#[test]
fn fee_weight_and_scaling_factor_use_eighteen_digits() {
    assert_eq!(decimal_to_fee(dec("0.003")).unwrap().as_raw(), u256(3_000_000_000_000_000));
    assert_eq!(decimal_to_weight(dec("0.5")).unwrap().as_raw(), u256(500_000_000_000_000_000));
    assert_eq!(
        decimal_to_scaling_factor(dec("1000000000000")).unwrap().as_raw(),
        u256(1_000_000_000_000_000_000_000_000_000_000)
    );
    assert_eq!(decimal_to_scaling_factor(dec("0")).unwrap().as_raw(), u256(0));
}

#[test]
fn fee_weight_and_scaling_factor_overflow_is_a_liquidity_error() {
    assert_eq!(decimal_to_fee(dec("1e60")), Err(Error::LiquidityError));
    assert_eq!(decimal_to_fee(dec("-0.003")), Err(Error::LiquidityError));
    assert_eq!(decimal_to_weight(dec("1e60")), Err(Error::LiquidityError));
    assert_eq!(decimal_to_weight(dec("-1")), Err(Error::LiquidityError));
    assert_eq!(decimal_to_scaling_factor(dec("1e60")), Err(Error::LiquidityError));
    assert_eq!(decimal_to_scaling_factor(dec("-1")), Err(Error::LiquidityError));
}

#[test]
fn fee_weight_and_scaling_factor_back_to_decimal() {
    assert_eq!(
        big(&fee_to_decimal(Fee::from_raw(u256(3_000_000_000_000_000)))),
        BigDecimal::from_str("0.003").unwrap()
    );
    assert_eq!(
        big(&weight_to_decimal(Weight::from_raw(u256(500_000_000_000_000_000)))),
        BigDecimal::from_str("0.5").unwrap()
    );
    assert_eq!(
        big(&scaling_factor_to_decimal(ScalingFactor::from_raw(u256(1_000_000_000_000_000_000)))),
        BigDecimal::from(1)
    );
    assert_eq!(fee_to_decimal(Fee::from_raw(u256(1))).scale, 18);
}

#[test]
fn amplification_parameter_is_thousandths_over_a_thousand() {
    let parameter = decimal_to_amp_param(dec("5")).unwrap();
    assert_eq!(parameter.factor(), u256(5000));
    assert_eq!(parameter.precision(), u256(1000));
    let parameter = decimal_to_amp_param(dec("0.0129")).unwrap();
    assert_eq!(parameter.factor(), u256(12));
    assert_eq!(decimal_to_amp_param(dec("-1")).map(|p| p.factor()), Err(Error::LiquidityError));
    assert_eq!(decimal_to_amp_param(dec("1e75")).map(|p| p.factor()), Err(Error::LiquidityError));
}

#[test]
fn amplification_parameter_needs_a_precision() {
    assert!(AmplificationParameter::new(u256(5), u256(0)).is_err());
    let parameter = AmplificationParameter::new(u256(5), u256(1000)).unwrap();
    assert_eq!((parameter.factor(), parameter.precision()), (u256(5), u256(1000)));
}

#[test]
fn amplification_ratio_is_in_lowest_terms() {
    let ratio = |factor: u128, precision: u128| {
        amplification_ratio(&AmplificationParameter::new(u256(factor), u256(precision)).unwrap())
    };
    assert_eq!(ratio(5000, 1000), (u256(5), u256(1)));
    assert_eq!(ratio(12, 1000), (u256(3), u256(250)));
    assert_eq!(ratio(0, 1000), (u256(0), u256(1)));
    assert_eq!(ratio(7, 1000), (u256(7), u256(1000)));
    assert_eq!(ratio(1000, 1000), (u256(1), u256(1)));
    let big = AmplificationParameter::new(
        U256 { hi: u128::MAX, lo: u128::MAX },
        U256 { hi: u128::MAX, lo: u128::MAX - 1 },
    )
    .unwrap();
    assert_eq!(
        amplification_ratio(&big),
        (U256 { hi: u128::MAX, lo: u128::MAX }, U256 { hi: u128::MAX, lo: u128::MAX - 1 })
    );
}

#[test]
fn amplification_parameter_back_to_decimal() {
    let render = |factor: u128, precision: u128| {
        big(&amplification_to_decimal(
            &AmplificationParameter::new(u256(factor), u256(precision)).unwrap(),
        ))
    };
    assert_eq!(render(5000, 1000), BigDecimal::from(5));
    assert_eq!(render(5000, 1000).to_string(), "5");
    assert_eq!(render(12, 1000).to_string(), "0.012");
    assert_eq!(render(0, 1000).to_string(), "0");
    assert_eq!(render(1500, 1000).to_string(), "1.5");
    let third = render(1, 3);
    assert_eq!(third.as_bigint_and_exponent().1, 100);
    assert_eq!(third.to_string(), format!("0.{}", "3".repeat(100)));
}

#[test]
fn amplification_parameter_round_trip() {
    for text in ["5", "0.012", "200", "1.5", "0"] {
        let parameter = decimal_to_amp_param(dec(text)).unwrap();
        assert_eq!(big(&amplification_to_decimal(&parameter)), big(&dec(text)));
    }
}

#[test]
fn v3_fee_is_millionths_in_lowest_terms() {
    assert_eq!(v3::Fee::new(500, 1_000_000).unwrap().get(), (1, 2000));
    assert_eq!(v3::Fee::new(3000, 1_000_000).unwrap().get(), (3, 1000));
    assert_eq!(v3::Fee::new(0, 1_000_000).unwrap().get(), (0, 1));
    assert_eq!(v3::Fee::new(1_000_000, 1_000_000).unwrap().get(), (1, 1));
    assert_eq!(v3::Fee::new(7, 1_000_000).unwrap().get(), (7, 1_000_000));
    assert!(v3::Fee::new(7, 0).is_none());
}

#[test]
fn v3_fee_is_truncated_not_rounded() {
    let fee = decimal_to_v3_fee(dec("0.0005001")).unwrap();
    let (numer, denom) = fee.get();
    assert_eq!(u64::from(numer) * 1_000_000, 500 * u64::from(denom));
    assert_eq!((numer, denom), (1, 2000));
    let fee = decimal_to_v3_fee(dec("0.0005009")).unwrap();
    assert_eq!(fee.get(), (1, 2000));
    let fee = decimal_to_v3_fee(dec("0.003")).unwrap();
    assert_eq!(fee.get(), (3, 1000));
}

#[test]
fn v3_fee_out_of_range_is_a_liquidity_error() {
    assert_eq!(decimal_to_v3_fee(dec("-0.003")).map(|f| f.get()), Err(Error::LiquidityError));
    assert_eq!(decimal_to_v3_fee(dec("4294.967296")).map(|f| f.get()), Err(Error::LiquidityError));
    assert_eq!(decimal_to_v3_fee(dec("1e80")).map(|f| f.get()), Err(Error::LiquidityError));
    assert_eq!(decimal_to_v3_fee(dec("4294.967295")).map(|f| f.get()), Ok((858_993_459, 200_000)));
}

#[test]
fn v3_fee_back_to_decimal() {
    let render = |numer: u32, denom: u32| big(&v3_fee_to_decimal(&v3::Fee::new(numer, denom).unwrap()));
    assert_eq!(render(500, 1_000_000).to_string(), "0.0005");
    assert_eq!(render(3000, 1_000_000).to_string(), "0.003");
    assert_eq!(render(0, 1_000_000).to_string(), "0");
    assert_eq!(render(1_000_000, 1_000_000).to_string(), "1");
    assert_eq!(render(u32::MAX, 1_000_000).to_string(), "4294.967295");
}

#[test]
fn v3_fee_round_trip_gives_the_truncated_value() {
    for (text, truncated) in [
        ("0.0005001", "0.0005"),
        ("0.003", "0.003"),
        ("0.0000019", "0.000001"),
        ("0.9999999999", "0.999999"),
        ("12", "12"),
        ("0.0000001", "0"),
    ] {
        let fee = decimal_to_v3_fee(dec(text)).unwrap();
        let rendered = big(&v3_fee_to_decimal(&fee));
        assert_eq!(rendered, BigDecimal::from_str(truncated).unwrap());
        assert_eq!(rendered == big(&dec(text)), text == truncated);
    }
}

#[test]
fn addresses_and_words_are_their_bytes() {
    let bytes: Vec<u8> = (1u8..=20).collect();
    let address = H160::from_be_bytes(&bytes).unwrap();
    assert_eq!(address, H160 { hi: 0x0102_0304_0506_0708_090a_0b0c_0d0e_0f10, lo: 0x1112_1314 });
    assert_eq!(address.to_be_bytes(), bytes);
    assert_eq!(H160::from_be_bytes(&vec![0; 19]), None);
    assert_eq!(H160::from_be_bytes(&vec![0; 21]), None);
    assert_eq!(H160 { hi: u128::MAX, lo: u32::MAX }.to_be_bytes(), vec![0xff; 20]);
    let bytes: Vec<u8> = (1u8..=32).collect();
    let word = driver::eth::H256::from_be_bytes(&bytes).unwrap();
    assert_eq!(
        word,
        driver::eth::H256 {
            hi: 0x0102_0304_0506_0708_090a_0b0c_0d0e_0f10,
            lo: 0x1112_1314_1516_1718_191a_1b1c_1d1e_1f20,
        }
    );
    assert_eq!(word.to_be_bytes(), bytes);
    assert_eq!(driver::eth::H256::from_be_bytes(&vec![0; 31]), None);
    assert_eq!(driver::eth::H256::from_be_bytes(&vec![]), None);
}

/// What bringing `digits * 10^-from` to `to` fractional digits gives, with
/// digits beyond the scale dropped toward zero.
fn rescaled_by_hand(digits: &BigInt, from: i64, to: i64) -> BigInt {
    let ten = BigInt::from(10);
    if to >= from {
        digits * num::pow(ten, (to - from) as usize)
    } else {
        let divisor = num::pow(ten, (from - to) as usize);
        let quotient = digits.abs() / divisor;
        if digits.is_negative() {
            -quotient
        } else {
            quotient
        }
    }
}

#[test]
fn fixed_point_agrees_with_arithmetic_done_by_hand() {
    let two_pow_256 = BigInt::from(1) << 256;
    let samples = [
        "0", "1", "-1", "9", "10", "-10", "99", "100", "12345", "-12345", "999999",
        "1000000", "123456789012345678901234567890", "-98765432109876543210",
        "340282366920938463463374607431768211455",
        "340282366920938463463374607431768211456",
        "115792089237316195423570985008687907853269984665640564039457584007913129639935",
        "115792089237316195423570985008687907853269984665640564039457584007913129639936",
        "1157920892373161954235709850086879078532699846656405640394575840079131296399350",
    ];
    for text in samples {
        let digits = BigInt::from_str(text).unwrap();
        for from in [-80i64, -20, -3, -1, 0, 1, 2, 6, 18, 40, 100] {
            for to in [-80i64, -5, 0, 3, 6, 18, 19, 77, 95] {
                let value = Decimal { unscaled: digits.to_signed_bytes_be(), scale: from };
                let expected = rescaled_by_hand(&digits, from, to);
                let got = decimal_to_fixed(&value, to)
                    .map(|raw| BigInt::from_signed_bytes_be(&raw.to_signed_be_bytes()));
                if expected.is_negative() || expected >= two_pow_256 {
                    assert_eq!(got, Err(FixedPointError), "{text} from {from} to {to}");
                } else {
                    assert_eq!(got, Ok(expected), "{text} from {from} to {to}");
                }
            }
        }
    }
}

#[test]
fn fixed_point_does_not_depend_on_leading_bytes() {
    let plain = Decimal { unscaled: vec![0x13, 0x89], scale: 7 };
    let padded = Decimal { unscaled: vec![0, 0, 0, 0, 0, 0, 0x13, 0x89], scale: 7 };
    for to in [-1, 0, 3, 6, 7, 30] {
        assert_eq!(decimal_to_fixed(&plain, to), decimal_to_fixed(&padded, to));
    }
    let minus = Decimal { unscaled: vec![0xff, 0xff, 0xff, 0xfe], scale: 2 };
    assert_eq!(decimal_to_fixed(&minus, 2), Err(FixedPointError));
    assert_eq!(decimal_to_fixed(&minus, 0), Ok(u256(0)));
    assert_eq!(decimal_to_fixed(&minus, 1), Ok(u256(0)));
}

#[test]
fn fees_are_rendered_exactly() {
    for millionths in [0u32, 1, 2, 5, 10, 64, 100, 500, 3000, 10_000, 15_625, 999_999, 1_000_000,
        1_000_001, 123_456_789, u32::MAX]
    {
        let fee = v3::Fee::new(millionths, 1_000_000).unwrap();
        let (numer, denom) = fee.get();
        assert_eq!(u64::from(numer) * 1_000_000, u64::from(millionths) * u64::from(denom));
        assert_eq!(num::integer::gcd(numer, denom), 1);
        assert_eq!(
            big(&v3_fee_to_decimal(&fee)),
            BigDecimal::new(BigInt::from(millionths), 6),
            "{millionths} millionths"
        );
    }
}

#[test]
fn amplification_is_rendered_exactly_where_it_can_be() {
    for factor in [0u128, 1, 3, 7, 1000, 1234, 5000, 999_999, u128::MAX] {
        for (precision, scale) in [(1u128, 0i64), (2, 1), (8, 3), (125, 3), (1000, 3), (1024, 10),
            (1_000_000, 6), (1u128 << 100, 100)]
        {
            let parameter = AmplificationParameter::new(u256(factor), u256(precision)).unwrap();
            let power_of_ten = num::pow(BigInt::from(10), scale as usize);
            let digits = BigInt::from(factor) * &power_of_ten / BigInt::from(precision);
            assert_eq!(&digits * BigInt::from(precision), BigInt::from(factor) * power_of_ten);
            if digits < num::pow(BigInt::from(10), 100) {
                assert_eq!(
                    big(&amplification_to_decimal(&parameter)),
                    BigDecimal::new(digits, scale),
                    "{factor} over {precision}"
                );
            }
        }
    }
}

#[test]
fn amplification_is_exact_up_to_a_hundred_digits() {
    // 5^143 has a hundred digits, so 1 / 2^143 can just be written out.
    for exponent in [1u32, 10, 64, 100, 140, 143] {
        let precision = if exponent < 128 {
            U256 { hi: 0, lo: 1 << exponent }
        } else {
            U256 { hi: 1 << (exponent - 128), lo: 0 }
        };
        let parameter = AmplificationParameter::new(u256(1), precision).unwrap();
        let digits = num::pow(BigInt::from(5), exponent as usize);
        assert!(digits < num::pow(BigInt::from(10), 100));
        assert_eq!(
            big(&amplification_to_decimal(&parameter)),
            BigDecimal::new(digits, i64::from(exponent))
        );
    }
}

#[test]
fn hexadecimal_is_read_with_and_without_prefix() {
    assert_eq!(decode(&b"0x00ff10".to_vec()), Some(vec![0x00, 0xff, 0x10]));
    assert_eq!(decode(&b"00ff10".to_vec()), Some(vec![0x00, 0xff, 0x10]));
    assert_eq!(decode(&b"0xAbCdEf".to_vec()), Some(vec![0xab, 0xcd, 0xef]));
    assert_eq!(decode(&b"0x".to_vec()), Some(vec![]));
    assert_eq!(decode(&b"".to_vec()), Some(vec![]));
    assert_eq!(decode(&b"0".to_vec()), None);
    assert_eq!(decode(&b"0x0".to_vec()), None);
    assert_eq!(decode(&b"0xgg".to_vec()), None);
    assert_eq!(decode(&b"0x0g".to_vec()), None);
    assert_eq!(decode(&b"0X00".to_vec()), None);
    assert_eq!(decode(&b"0x0x00".to_vec()), None);
    assert_eq!(decode(&b" 00".to_vec()), None);
    assert_eq!(decode(&b"0/".to_vec()), None);
    assert_eq!(decode(&b"0:".to_vec()), None);
    assert_eq!(decode(&b"0@".to_vec()), None);
    assert_eq!(decode(&b"0G".to_vec()), None);
    assert_eq!(decode(&b"0`".to_vec()), None);
    assert_eq!(encode(&vec![0x00, 0xff, 0x10, 0x9a]), b"0x00ff109a".to_vec());
    assert_eq!(encode(&vec![]), b"0x".to_vec());
    let all: Vec<u8> = (0u8..=255).collect();
    assert_eq!(decode(&encode(&all)), Some(all));
}
