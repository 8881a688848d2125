//! Arbitrary-precision decimal numbers as plain data, and the operations on
//! them that `bigdecimal` and `num` carry out.

use crate::arith::{lemma_power_adds, lemma_power_positive, lowest_terms, pow10, signed_be_value,
    trunc_div};
use vstd::prelude::*;

verus! {

/// An arbitrary-precision decimal number: an integer and the number of its
/// digits that stand after the decimal point.
#[derive(Debug)]
pub struct Decimal {
    /// The digits as one integer, in two's complement, most significant byte
    /// first.
    pub unscaled: Vec<u8>,
    /// How many of the digits are fractional. A negative scale stands for
    /// trailing zeros before the decimal point.
    pub scale: i64,
}

/// What a [`Decimal`] stands for: `unscaled * 10^(-scale)`.
pub struct DecimalView {
    pub unscaled: int,
    pub scale: int,
}

impl View for Decimal {
    type V = DecimalView;

    open spec fn view(&self) -> DecimalView {
        DecimalView { unscaled: signed_be_value(self.unscaled@), scale: self.scale as int }
    }
}

/// Whether two decimals are the same number, whatever their scales.
pub open spec fn same_value(a: DecimalView, b: DecimalView) -> bool {
    if a.scale >= b.scale {
        a.unscaled == b.unscaled * pow10((a.scale - b.scale) as nat)
    } else {
        a.unscaled * pow10((b.scale - a.scale) as nat) == b.unscaled
    }
}

/// `d` brought to `scale` fractional digits. Digits beyond the new scale are
/// dropped, which rounds toward zero.
pub open spec fn rescaled(d: DecimalView, scale: int) -> DecimalView {
    DecimalView {
        unscaled: if scale >= d.scale {
            d.unscaled * pow10((scale - d.scale) as nat)
        } else {
            trunc_div(d.unscaled, pow10((d.scale - scale) as nat))
        },
        scale,
    }
}

/// The decimal that `bigdecimal` computes for `numer / denom`: the exact
/// quotient where that has at most a hundred digits, a rounded one otherwise.
pub uninterp spec fn decimal_quotient(numer: int, denom: int) -> DecimalView;

/// Whether `q` is the quotient `numer / denom` exactly, written with no
/// negative scale and fewer than a hundred and one digits.
pub open spec fn exact_quotient(numer: int, denom: int, q: DecimalView) -> bool {
    &&& q.scale >= 0
    &&& 0 <= q.unscaled < pow10(100)
    &&& q.unscaled * denom == numer * pow10(q.scale as nat)
}

/// Whether `r` is what dividing `numer` by `denom` gives: the decimal that
/// `bigdecimal` computes, which is the quotient itself wherever that can be
/// written exactly.
pub open spec fn is_quotient(numer: int, denom: int, r: DecimalView) -> bool {
    &&& r == decimal_quotient(numer, denom)
    &&& forall|q: DecimalView| #[trigger] exact_quotient(numer, denom, q) ==> same_value(r, q)
}

/// Two decimals are the same number exactly if they have the same digits
/// once both are written at a scale that is at least either's.
pub proof fn lemma_same_value_at(a: DecimalView, b: DecimalView, scale: int)
    requires
        scale >= a.scale,
        scale >= b.scale,
    ensures
        same_value(a, b) <==> a.unscaled * pow10((scale - a.scale) as nat) == b.unscaled * pow10(
            (scale - b.scale) as nat,
        ),
{
    let pa = pow10((scale - a.scale) as nat);
    let pb = pow10((scale - b.scale) as nat);
    lemma_power_positive(10, (scale - a.scale) as nat);
    lemma_power_positive(10, (scale - b.scale) as nat);
    if a.scale >= b.scale {
        let d = pow10((a.scale - b.scale) as nat);
        lemma_power_adds(10, (a.scale - b.scale) as nat, (scale - a.scale) as nat);
        assert(pb == d * pa);
        assert((a.unscaled == b.unscaled * d) <==> (a.unscaled * pa == b.unscaled * (d * pa)))
            by (nonlinear_arith)
            requires
                pa > 0,
        ;
    } else {
        let d = pow10((b.scale - a.scale) as nat);
        lemma_power_adds(10, (b.scale - a.scale) as nat, (scale - b.scale) as nat);
        assert(pa == d * pb);
        assert((a.unscaled * d == b.unscaled) <==> (a.unscaled * (d * pb) == b.unscaled * pb))
            by (nonlinear_arith)
            requires
                pb > 0,
        ;
    }
}

/// Being the same number does not depend on the order of the two.
pub proof fn lemma_same_value_symmetric(a: DecimalView, b: DecimalView)
    ensures
        same_value(a, b) == same_value(b, a),
{
    if a.scale == b.scale {
        assert(pow10(0) == 1);
    }
}

/// A decimal that is the same number as a second is the same number as a
/// third exactly if the second is.
pub proof fn lemma_same_value_transitive(a: DecimalView, b: DecimalView, c: DecimalView)
    requires
        same_value(a, b),
    ensures
        same_value(a, c) == same_value(b, c),
{
    let scale = if a.scale >= b.scale {
        if a.scale >= c.scale {
            a.scale
        } else {
            c.scale
        }
    } else {
        if b.scale >= c.scale {
            b.scale
        } else {
            c.scale
        }
    };
    lemma_same_value_at(a, b, scale);
    lemma_same_value_at(a, c, scale);
    lemma_same_value_at(b, c, scale);
}

/// `BigDecimal::with_scale`, on a decimal that goes in and comes out through
/// `BigInt::from_signed_bytes_be` and `BigInt::to_signed_bytes_be`.
///
/// The result has the new scale. Its digits are the old ones times a power
/// of ten where the scale grows, and divided by a power of ten, rounding
/// toward zero, where it shrinks. The scale may grow by at most 77 and
/// shrink by at most three digits per byte of `value`, which bounds the
/// power of ten that is computed, and the change has to fit in an `i64`, in
/// which `bigdecimal` computes it.
#[verifier::external_body]
pub(crate) fn with_scale(value: &Decimal, scale: i64) -> (r: Decimal)
    requires
        -3 * value.unscaled@.len() <= scale - value.scale <= 77,
        -0x7fff_ffff_ffff_ffff <= scale - value.scale,
    ensures
        r@ == rescaled(value@, scale as int),
{
    let digits = num::BigInt::from_signed_bytes_be(&value.unscaled);
    let scaled = bigdecimal::BigDecimal::new(digits, value.scale).with_scale(scale);
    let (digits, scale) = scaled.into_bigint_and_exponent();
    Decimal { unscaled: digits.to_signed_bytes_be(), scale }
}

/// The `/` of `BigDecimal`, on two integers that go in through
/// `BigInt::from_signed_bytes_be`, each at scale zero: `numer / denom` with
/// `numer` not negative and `denom` positive.
///
/// The result depends on the two numbers alone. `bigdecimal` divides digit by
/// digit until nothing remains or a hundred digits are out, so where the
/// quotient can be written exactly with at most a hundred digits the result
/// is that number; otherwise it is rounded.
#[verifier::external_body]
pub(crate) fn divide(numer: &Vec<u8>, denom: &Vec<u8>) -> (r: Decimal)
    requires
        signed_be_value(numer@) >= 0,
        signed_be_value(denom@) > 0,
    ensures
        r@ == decimal_quotient(signed_be_value(numer@), signed_be_value(denom@)),
        is_quotient(signed_be_value(numer@), signed_be_value(denom@), r@),
{
    let numer = bigdecimal::BigDecimal::new(num::BigInt::from_signed_bytes_be(numer), 0);
    let denom = bigdecimal::BigDecimal::new(num::BigInt::from_signed_bytes_be(denom), 0);
    let (digits, scale) = (numer / denom).into_bigint_and_exponent();
    Decimal { unscaled: digits.to_signed_bytes_be(), scale }
}

/// `Ratio::<u32>::new`, which divides `numer` and `denom` by their greatest
/// common divisor. It panics on a zero denominator.
#[verifier::external_body]
pub(crate) fn reduce(numer: u32, denom: u32) -> (r: (u32, u32))
    requires
        denom != 0,
    ensures
        r.0 == lowest_terms(numer as nat, denom as nat).0,
        r.1 == lowest_terms(numer as nat, denom as nat).1,
{
    num::rational::Ratio::new(numer, denom).into_raw()
}

/// `BigRational::new`, which divides `numer` and `denom` by their greatest
/// common divisor, for a numerator that is not negative and a positive
/// denominator. Both go in through `BigInt::from_signed_bytes_be` and come
/// out through `BigInt::to_signed_bytes_be`.
#[verifier::external_body]
pub(crate) fn reduce_big(numer: &Vec<u8>, denom: &Vec<u8>) -> (r: (Vec<u8>, Vec<u8>))
    requires
        signed_be_value(numer@) >= 0,
        signed_be_value(denom@) > 0,
    ensures
        signed_be_value(r.0@) == lowest_terms(
            signed_be_value(numer@) as nat,
            signed_be_value(denom@) as nat,
        ).0,
        signed_be_value(r.1@) == lowest_terms(
            signed_be_value(numer@) as nat,
            signed_be_value(denom@) as nat,
        ).1,
{
    let numer = num::BigInt::from_signed_bytes_be(numer);
    let denom = num::BigInt::from_signed_bytes_be(denom);
    let (numer, denom) = num::BigRational::new(numer, denom).into_raw();
    (numer.to_signed_bytes_be(), denom.to_signed_bytes_be())
}

} // verus!
