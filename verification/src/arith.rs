//! Integer arithmetic that the numeric conversions are stated over: powers,
//! division that rounds toward zero, greatest common divisors and the value
//! of a big-endian byte string.

use vstd::prelude::*;

verus! {

/// `base` raised to `exp`.
pub open spec fn power(base: int, exp: nat) -> int
    decreases exp,
{
    if exp == 0 {
        1
    } else {
        base * power(base, (exp - 1) as nat)
    }
}

/// Ten raised to `exp`.
pub open spec fn pow10(exp: nat) -> int {
    power(10, exp)
}

/// The quotient of `a` by a positive `b`, rounded toward zero.
pub open spec fn trunc_div(a: int, b: int) -> int {
    if a >= 0 {
        a / b
    } else {
        -((-a) / b)
    }
}

/// The greatest common divisor, by Euclid's algorithm.
pub open spec fn gcd(a: nat, b: nat) -> nat
    decreases b,
{
    if b == 0 {
        a
    } else {
        gcd(b, a % b)
    }
}

/// The fraction `numer / denom` in lowest terms.
pub open spec fn lowest_terms(numer: nat, denom: nat) -> (nat, nat) {
    (numer / gcd(numer, denom), denom / gcd(numer, denom))
}

/// 2^256, one more than the largest 256-bit unsigned integer.
pub open spec fn two_pow_256() -> int {
    0x1_0000_0000_0000_0000_0000_0000_0000_0000_0000_0000_0000_0000_0000_0000_0000_0000int
}

/// The number that `bytes` spell in base 256, most significant byte first.
pub open spec fn be_value(bytes: Seq<u8>) -> nat
    decreases bytes.len(),
{
    if bytes.len() == 0 {
        0
    } else {
        be_value(bytes.drop_last()) * 256 + bytes.last() as nat
    }
}

/// The integer that `bytes` spell in two's complement, most significant byte
/// first. The empty string spells zero.
pub open spec fn signed_be_value(bytes: Seq<u8>) -> int {
    if bytes.len() > 0 && bytes[0] >= 128 {
        be_value(bytes) - power(256, bytes.len())
    } else {
        be_value(bytes) as int
    }
}

/// A power of a positive base is positive.
pub proof fn lemma_power_positive(base: int, exp: nat)
    requires
        base > 0,
    ensures
        power(base, exp) > 0,
    decreases exp,
{
    if exp > 0 {
        lemma_power_positive(base, (exp - 1) as nat);
        assert(base * power(base, (exp - 1) as nat) > 0) by (nonlinear_arith)
            requires
                base > 0,
                power(base, (exp - 1) as nat) > 0,
        ;
    }
}

/// Exponents add where powers of one base are multiplied.
pub proof fn lemma_power_adds(base: int, e1: nat, e2: nat)
    ensures
        power(base, e1 + e2) == power(base, e1) * power(base, e2),
    decreases e1,
{
    if e1 == 0 {
        assert(power(base, e1) == 1);
        assert(1 * power(base, e2) == power(base, e2));
    } else {
        lemma_power_adds(base, (e1 - 1) as nat, e2);
        assert((e1 + e2 - 1) as nat == (e1 - 1) as nat + e2);
        let low = power(base, (e1 - 1) as nat);
        let high = power(base, e2);
        assert(base * (low * high) == (base * low) * high) by (nonlinear_arith);
    }
}

/// A power of a base of at least one does not shrink as the exponent grows.
pub proof fn lemma_power_monotonic(base: int, e1: nat, e2: nat)
    requires
        base >= 1,
        e1 <= e2,
    ensures
        power(base, e1) <= power(base, e2),
    decreases e2,
{
    if e1 < e2 {
        lemma_power_monotonic(base, e1, (e2 - 1) as nat);
        lemma_power_positive(base, (e2 - 1) as nat);
        let p = power(base, (e2 - 1) as nat);
        assert(base * p >= p) by (nonlinear_arith)
            requires
                base >= 1,
                p > 0,
        ;
    }
}

/// 256^n is at most 1000^n, which is 10^(3n).
pub proof fn lemma_power_256_below_pow10(n: nat)
    ensures
        power(256, n) <= pow10(3 * n),
    decreases n,
{
    if n > 0 {
        lemma_power_256_below_pow10((n - 1) as nat);
        let m = (n - 1) as nat;
        lemma_power_adds(10, 3, 3 * m);
        assert(3 * n == 3 + 3 * m);
        assert(pow10(3) == 1000) by {
            reveal_with_fuel(power, 4);
        }
        lemma_power_positive(256, m);
        let a = power(256, m);
        let b = pow10(3 * m);
        assert(256 * a <= 1000 * b) by (nonlinear_arith)
            requires
                0 < a <= b,
        ;
    }
}

/// A string of `n` bytes spells less than 256 to the `n`.
pub proof fn lemma_be_value_bound(bytes: Seq<u8>)
    ensures
        be_value(bytes) < power(256, bytes.len()),
    decreases bytes.len(),
{
    if bytes.len() > 0 {
        lemma_be_value_bound(bytes.drop_last());
    }
}

/// Every prefix of a string spells at most what the string spells divided
/// by 256 to the number of bytes left.
pub proof fn lemma_be_value_prefix(bytes: Seq<u8>, n: int)
    requires
        0 <= n <= bytes.len(),
    ensures
        be_value(bytes.take(n)) * power(256, (bytes.len() - n) as nat) <= be_value(bytes),
    decreases bytes.len() - n,
{
    if n == bytes.len() {
        assert(bytes.take(n) =~= bytes);
        assert(power(256, 0) == 1);
    } else {
        let front = bytes.drop_last();
        lemma_be_value_prefix(front, n);
        assert(front.take(n) =~= bytes.take(n));
        let a = be_value(bytes.take(n)) as int;
        let p = power(256, (front.len() - n) as nat);
        assert(power(256, (bytes.len() - n) as nat) == 256 * p);
        assert(a * (256 * p) == (a * p) * 256) by (nonlinear_arith);
    }
}

/// What two strings spell together: what the first spells, moved up by the
/// length of the second, plus what the second spells.
pub proof fn lemma_be_value_concat(front: Seq<u8>, back: Seq<u8>)
    ensures
        be_value(front + back) == be_value(front) * power(256, back.len()) + be_value(back),
    decreases back.len(),
{
    if back.len() == 0 {
        assert(front + back =~= front);
        assert(power(256, 0) == 1);
    } else {
        lemma_be_value_concat(front, back.drop_last());
        assert((front + back).drop_last() =~= front + back.drop_last());
        assert((front + back).last() == back.last());
        let a = be_value(front) as int;
        let p = power(256, (back.len() - 1) as nat);
        assert(power(256, back.len()) == 256 * p);
        assert((a * p) * 256 == a * (256 * p)) by (nonlinear_arith);
    }
}

/// The greatest common divisor of two numbers that are not both zero is
/// positive.
pub proof fn lemma_gcd_positive(a: nat, b: nat)
    requires
        a > 0 || b > 0,
    ensures
        gcd(a, b) > 0,
    decreases b,
{
    if b != 0 {
        lemma_gcd_positive(b, a % b);
    }
}

/// The greatest common divisor divides both of its arguments.
pub proof fn lemma_gcd_divides(a: nat, b: nat)
    requires
        a > 0 || b > 0,
    ensures
        a % gcd(a, b) == 0,
        b % gcd(a, b) == 0,
    decreases b,
{
    lemma_gcd_positive(a, b);
    if b == 0 {
        assert(a % a == 0) by (nonlinear_arith)
            requires
                a > 0,
        ;
    } else {
        lemma_gcd_divides(b, a % b);
        let g = gcd(a, b) as int;
        let q = a as int / b as int;
        let r = a as int % b as int;
        assert(gcd(a, b) == gcd(b, a % b));
        assert(a == q * b + r) by (nonlinear_arith)
            requires
                b > 0,
                q == a as int / b as int,
                r == a as int % b as int,
        ;
        let kb = b as int / g;
        let kr = r / g;
        assert(b == kb * g && r == kr * g) by (nonlinear_arith)
            requires
                g > 0,
                b as int % g == 0,
                r % g == 0,
                kb == b as int / g,
                kr == r / g,
        ;
        assert(a == (q * kb + kr) * g) by (nonlinear_arith)
            requires
                a == q * b + r,
                b == kb * g,
                r == kr * g,
        ;
        assert(a as int % g == 0) by (nonlinear_arith)
            requires
                g > 0,
                a == (q * kb + kr) * g,
        ;
    }
}

/// A fraction in lowest terms has the value of the fraction it came from.
pub proof fn lemma_lowest_terms_value(numer: nat, denom: nat)
    requires
        denom > 0,
    ensures
        lowest_terms(numer, denom).1 > 0,
        lowest_terms(numer, denom).0 * denom == numer * lowest_terms(numer, denom).1,
        lowest_terms(numer, denom).1 * gcd(numer, denom) == denom,
        lowest_terms(numer, denom).0 * gcd(numer, denom) == numer,
{
    lemma_gcd_positive(numer, denom);
    lemma_gcd_divides(numer, denom);
    let g = gcd(numer, denom) as int;
    let n = numer as int;
    let d = denom as int;
    assert(n == (n / g) * g && d == (d / g) * g && d / g > 0) by (nonlinear_arith)
        requires
            g > 0,
            d > 0,
            n >= 0,
            n % g == 0,
            d % g == 0,
    ;
    let n1 = n / g;
    let d1 = d / g;
    assert(n1 * d == n * d1) by (nonlinear_arith)
        requires
            n == n1 * g,
            d == d1 * g,
    ;
}

} // verus!
