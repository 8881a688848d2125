//! Fixed-point numbers: a decimal held as a 256-bit unsigned integer at an
//! agreed number of fractional digits.

use crate::arith::{be_value, lemma_be_value_bound, lemma_be_value_prefix, lemma_power_256_below_pow10,
    lemma_power_adds, lemma_power_monotonic, lemma_power_positive, pow10, power, signed_be_value,
    trunc_div, two_pow_256};
use crate::decimal::{rescaled, same_value, with_scale, Decimal, DecimalView};
use crate::eth::U256;
use vstd::prelude::*;

verus! {

/// A decimal that has no fixed-point form: at the scale asked for it is
/// negative or takes more than 256 bits.
#[derive(Clone, Copy, Debug, PartialEq, Eq, Structural)]
pub struct FixedPointError;

/// The fixed-point form of `value` at `scale` fractional digits, where it has
/// one: the digits of `value` brought to that scale, as one integer.
pub open spec fn fixed_point(value: DecimalView, scale: int) -> Option<nat> {
    let digits = rescaled(value, scale).unscaled;
    if 0 <= digits < two_pow_256() {
        Some(digits as nat)
    } else {
        None
    }
}

/// The decimal that the fixed-point number `raw` at `scale` fractional digits
/// stands for.
pub open spec fn fixed_point_decimal(raw: nat, scale: int) -> DecimalView {
    DecimalView { unscaled: raw as int, scale }
}

/// Whether `value` can be written at `scale` fractional digits without
/// dropping a digit.
pub open spec fn exact_at(value: DecimalView, scale: int) -> bool {
    scale >= value.scale || value.unscaled % pow10((value.scale - scale) as nat) == 0
}

proof fn lemma_pow10_78()
    ensures
        pow10(78) > two_pow_256(),
{
    assert(pow10(13) == 10_000_000_000_000) by {
        reveal_with_fuel(power, 14);
    }
    lemma_power_adds(10, 13, 13);
    lemma_power_adds(10, 26, 13);
    lemma_power_adds(10, 39, 39);
    assert(pow10(26) == 100_000_000_000_000_000_000_000_000);
    let p = pow10(39);
    assert(p == 1_000_000_000_000_000_000_000_000_000_000_000_000_000int);
    assert(p * p > two_pow_256()) by (nonlinear_arith)
        requires
            p == 1_000_000_000_000_000_000_000_000_000_000_000_000_000int,
    ;
}

/// What two's complement bytes spell lies strictly between plus and minus
/// 256 to their number.
proof fn lemma_signed_be_value_bound(bytes: Seq<u8>)
    ensures
        -power(256, bytes.len()) < signed_be_value(bytes) < power(256, bytes.len()),
{
    lemma_be_value_bound(bytes);
    lemma_power_positive(256, bytes.len());
    if bytes.len() > 0 && bytes[0] >= 128 {
        lemma_be_value_prefix(bytes, 1);
        lemma_power_positive(256, (bytes.len() - 1) as nat);
        assert(bytes.take(1).drop_last().len() == 0);
        assert(be_value(bytes.take(1)) == bytes[0]) by {
            reveal_with_fuel(be_value, 2);
        }
        let p = power(256, (bytes.len() - 1) as nat);
        let b = bytes[0] as int;
        assert(b * p >= 1) by (nonlinear_arith)
            requires
                b >= 128,
                p >= 1,
        ;
    }
}

/// Dropping digits in two steps drops the same digits as one step does.
proof fn lemma_rescaled_twice(value: DecimalView, middle: int, scale: int)
    requires
        scale <= middle <= value.scale,
    ensures
        rescaled(rescaled(value, middle), scale) == rescaled(value, scale),
{
    let x = (value.scale - middle) as nat;
    let y = (middle - scale) as nat;
    let b = pow10(x);
    let c = pow10(y);
    lemma_power_positive(10, x);
    lemma_power_positive(10, y);
    lemma_power_adds(10, x, y);
    assert(pow10(0) == 1);
    let a = if value.unscaled >= 0 {
        value.unscaled
    } else {
        -value.unscaled
    };
    vstd::arithmetic::div_mod::lemma_div_denominator(a, b, c);
    vstd::arithmetic::div_mod::lemma_div_pos_is_pos(a, b);
    if middle == value.scale {
        assert(a / 1 == a);
    }
    if scale == middle {
        assert((a / b) / 1 == a / b);
    }
    if value.unscaled < 0 && a / b == 0 {
        assert(0int / c == 0) by (nonlinear_arith)
            requires
                c > 0,
        ;
    }
}

/// Converts a decimal to fixed point at `scale` fractional digits. Digits
/// beyond the scale are dropped. Fails where the result is negative or does
/// not fit in 256 bits.
pub fn decimal_to_fixed(value: &Decimal, scale: i64) -> (r: Result<U256, FixedPointError>)
    ensures
        match r {
            Ok(raw) => fixed_point(value@, scale as int) == Some(raw@),
            Err(_) => fixed_point(value@, scale as int) is None,
        },
    decreases value.scale - scale,
{
    let diff: i128 = scale as i128 - value.scale as i128;
    let len: i128 = value.unscaled.len() as i128;
    let ghost digits = value@.unscaled;
    if diff >= 0 {
        let ghost factor = pow10(diff as nat);
        proof {
            lemma_power_positive(10, diff as nat);
        }
        match U256::from_signed_be_bytes(&value.unscaled) {
            None => {
                proof {
                    if digits < 0 {
                        assert(digits * factor < 0) by (nonlinear_arith)
                            requires
                                digits < 0,
                                factor >= 1,
                        ;
                    } else {
                        assert(digits * factor >= digits) by (nonlinear_arith)
                            requires
                                digits >= 0,
                                factor >= 1,
                        ;
                    }
                }
                Err(FixedPointError)
            },
            Some(raw) => {
                if raw.is_zero() {
                    proof {
                        assert(digits * factor == 0) by (nonlinear_arith)
                            requires
                                digits == 0,
                        ;
                    }
                    Ok(raw)
                } else if diff > 77 {
                    proof {
                        lemma_pow10_78();
                        lemma_power_monotonic(10, 78, diff as nat);
                        assert(digits * factor >= factor) by (nonlinear_arith)
                            requires
                                digits >= 1,
                                factor >= 1,
                        ;
                    }
                    Err(FixedPointError)
                } else {
                    let scaled = with_scale(value, scale);
                    match U256::from_signed_be_bytes(&scaled.unscaled) {
                        Some(fixed) => Ok(fixed),
                        None => Err(FixedPointError),
                    }
                }
            },
        }
    } else if -diff >= 3 * len {
        proof {
            let divisor = pow10((-diff) as nat);
            lemma_signed_be_value_bound(value.unscaled@);
            lemma_power_256_below_pow10(len as nat);
            lemma_power_monotonic(10, (3 * len) as nat, (-diff) as nat);
            if digits >= 0 {
                assert(digits / divisor == 0) by (nonlinear_arith)
                    requires
                        0 <= digits < divisor,
                ;
            } else {
                assert((-digits) / divisor == 0) by (nonlinear_arith)
                    requires
                        0 <= -digits < divisor,
                ;
            }
            assert(trunc_div(digits, divisor) == 0);
        }
        Ok(U256::zero())
    } else if -diff > 0x7fff_ffff_ffff_ffff {
        // More digits are to be dropped than one step can drop.
        let step: i64 = 0x7fff_ffff_ffff_ffff;
        let partly = with_scale(value, value.scale - step);
        proof {
            lemma_rescaled_twice(value@, partly@.scale, scale as int);
        }
        decimal_to_fixed(&partly, scale)
    } else {
        let scaled = with_scale(value, scale);
        match U256::from_signed_be_bytes(&scaled.unscaled) {
            Some(fixed) => Ok(fixed),
            None => Err(FixedPointError),
        }
    }
}

/// The decimal that a fixed-point number stands for. Nothing is lost: the
/// digits are those of `raw`, with `scale` of them after the point.
pub fn fixed_to_decimal(raw: U256, scale: i64) -> (r: Decimal)
    ensures
        r@ == fixed_point_decimal(raw@, scale as int),
{
    Decimal { unscaled: raw.to_signed_be_bytes(), scale }
}

/// A decimal brought to a scale is the same number as before exactly if no
/// digit was dropped.
pub proof fn lemma_same_value_of_cut(value: DecimalView, scale: int)
    ensures
        same_value(rescaled(value, scale), value) <==> exact_at(value, scale),
{
    if scale < value.scale {
        let divisor = pow10((value.scale - scale) as nat);
        lemma_power_positive(10, (value.scale - scale) as nat);
        let digits = value.unscaled;
        if digits >= 0 {
            assert(((digits / divisor) * divisor == digits) <==> digits % divisor == 0)
                by (nonlinear_arith)
                requires
                    divisor > 0,
            ;
        } else {
            assert(((-((-digits) / divisor)) * divisor == digits) <==> digits % divisor == 0)
                by (nonlinear_arith)
                requires
                    divisor > 0,
                    digits < 0,
            ;
        }
    }
}

/// Converting a decimal to fixed point and back gives the same number,
/// provided that the decimal can be written at that scale without dropping a
/// digit and has a fixed-point form there.
pub proof fn lemma_fixed_point_round_trip(value: DecimalView, scale: int)
    requires
        exact_at(value, scale),
        fixed_point(value, scale) is Some,
    ensures
        same_value(fixed_point_decimal(fixed_point(value, scale).unwrap(), scale), value),
{
    lemma_same_value_of_cut(value, scale);
}

} // verus!
