//! Ethereum primitives: 256-bit unsigned integers, addresses, 32-byte words
//! and token amounts.

use crate::arith::{be_value, lemma_be_value_bound, lemma_be_value_concat, lemma_be_value_prefix,
    power, signed_be_value, two_pow_256};
use vstd::prelude::*;

verus! {

/// A 256-bit unsigned integer, held as two 128-bit halves.
#[derive(Clone, Copy, Debug, PartialEq, Eq, Structural, Hash)]
pub struct U256 {
    /// The upper 128 bits.
    pub hi: u128,
    /// The lower 128 bits.
    pub lo: u128,
}

impl View for U256 {
    type V = nat;

    /// The number that the two halves stand for.
    open spec fn view(&self) -> nat {
        (self.hi * 0x1_0000_0000_0000_0000_0000_0000_0000_0000 + self.lo) as nat
    }
}

/// A 160-bit address, held as its first sixteen bytes and its last four.
#[derive(Clone, Copy, Debug, PartialEq, Eq, Structural, Hash)]
pub struct H160 {
    /// Bytes 0 to 15, most significant first.
    pub hi: u128,
    /// Bytes 16 to 19, most significant first.
    pub lo: u32,
}

/// A 32-byte word, held as its first and its last sixteen bytes.
#[derive(Clone, Copy, Debug, PartialEq, Eq, Structural, Hash)]
pub struct H256 {
    /// Bytes 0 to 15, most significant first.
    pub hi: u128,
    /// Bytes 16 to 31, most significant first.
    pub lo: u128,
}

/// An amount of a token.
#[derive(Clone, Copy, Debug, PartialEq, Eq, Structural, Hash)]
pub struct Asset {
    pub token: H160,
    pub amount: U256,
}

impl H160 {
    /// The address read as a number, most significant byte first.
    pub open spec fn value(self) -> nat {
        (self.hi * 0x1_0000_0000 + self.lo) as nat
    }

    /// Whether this address comes before `other` when both are compared
    /// byte by byte.
    pub fn lt(&self, other: &H160) -> (r: bool)
        ensures
            r == (self.value() < other.value()),
    {
        self.hi < other.hi || (self.hi == other.hi && self.lo < other.lo)
    }
}

/// Two addresses with the same number are the same address.
pub proof fn lemma_address_value_injective(a: H160, b: H160)
    requires
        a.value() == b.value(),
    ensures
        a == b,
{
}

/// Appends `byte` to `out`.
fn push_byte(out: &mut Vec<u8>, byte: u8)
    ensures
        final(out)@ == old(out)@.push(byte),
        be_value(final(out)@) == be_value(old(out)@) * 256 + byte,
{
    out.push(byte);
    proof {
        assert(out@.drop_last() =~= old(out)@);
    }
}

/// Appends the eight bytes of `x`, most significant first.
fn push_u64_be(out: &mut Vec<u8>, x: u64)
    ensures
        final(out)@.len() == old(out)@.len() + 8,
        final(out)@.subrange(0, old(out)@.len() as int) == old(out)@,
        be_value(final(out)@) == be_value(old(out)@) * 0x1_0000_0000_0000_0000 + x,
{
    let ghost before = out@;
    let ghost start = be_value(out@) as int;
    push_byte(out, (x / 0x100_0000_0000_0000) as u8);
    let r1: u64 = x % 0x100_0000_0000_0000;
    assert(be_value(out@) * 0x100_0000_0000_0000 + r1 == start * 0x1_0000_0000_0000_0000 + x);
    push_byte(out, (r1 / 0x1_0000_0000_0000) as u8);
    let r2: u64 = r1 % 0x1_0000_0000_0000;
    assert(be_value(out@) * 0x1_0000_0000_0000 + r2 == start * 0x1_0000_0000_0000_0000 + x);
    push_byte(out, (r2 / 0x100_0000_0000) as u8);
    let r3: u64 = r2 % 0x100_0000_0000;
    assert(be_value(out@) * 0x100_0000_0000 + r3 == start * 0x1_0000_0000_0000_0000 + x);
    push_byte(out, (r3 / 0x1_0000_0000) as u8);
    let r4: u64 = r3 % 0x1_0000_0000;
    assert(be_value(out@) * 0x1_0000_0000 + r4 == start * 0x1_0000_0000_0000_0000 + x);
    push_byte(out, (r4 / 0x100_0000) as u8);
    let r5: u64 = r4 % 0x100_0000;
    assert(be_value(out@) * 0x100_0000 + r5 == start * 0x1_0000_0000_0000_0000 + x);
    push_byte(out, (r5 / 0x1_0000) as u8);
    let r6: u64 = r5 % 0x1_0000;
    assert(be_value(out@) * 0x1_0000 + r6 == start * 0x1_0000_0000_0000_0000 + x);
    push_byte(out, (r6 / 0x100) as u8);
    let r7: u64 = r6 % 0x100;
    assert(be_value(out@) * 0x100 + r7 == start * 0x1_0000_0000_0000_0000 + x);
    push_byte(out, r7 as u8);
    proof {
        assert(out@.subrange(0, before.len() as int) =~= before);
    }
}

/// Reads up to sixteen bytes of `bytes`, from `from` up to `to`, as one
/// number, most significant byte first.
fn read_be(bytes: &Vec<u8>, from: usize, to: usize) -> (r: u128)
    requires
        from <= to <= bytes@.len(),
        to - from <= 16,
    ensures
        r == be_value(bytes@.subrange(from as int, to as int)),
{
    let mut acc: u128 = 0;
    let mut i: usize = from;
    while i < to
        invariant
            from <= i <= to <= bytes@.len(),
            to - from <= 16,
            acc == be_value(bytes@.subrange(from as int, i as int)),
            acc < power(256, (i - from) as nat),
        decreases to - i,
    {
        proof {
            let next = bytes@.subrange(from as int, i + 1);
            assert(next.drop_last() =~= bytes@.subrange(from as int, i as int));
            assert(next.last() == bytes@[i as int]);
            crate::arith::lemma_power_monotonic(256, (i - from + 1) as nat, 16);
            assert(power(256, 16) == 0x1_0000_0000_0000_0000_0000_0000_0000_0000int) by {
                reveal_with_fuel(power, 17);
            }
            assert(power(256, (i - from + 1) as nat) == 256 * power(256, (i - from) as nat));
        }
        acc = acc * 256 + bytes[i] as u128;
        i = i + 1;
    }
    acc
}

impl H160 {
    /// Reads an address from its twenty bytes. Gives `None` for any other
    /// number of bytes.
    pub fn from_be_bytes(bytes: &Vec<u8>) -> (r: Option<H160>)
        ensures
            match r {
                Some(address) => bytes@.len() == 20 && address.value() == be_value(bytes@),
                None => bytes@.len() != 20,
            },
    {
        if bytes.len() != 20 {
            return None;
        }
        let hi: u128 = read_be(bytes, 0, 16);
        let lo: u128 = read_be(bytes, 16, 20);
        proof {
            lemma_be_value_concat(bytes@.subrange(0, 16), bytes@.subrange(16, 20));
            assert(bytes@.subrange(0, 16) + bytes@.subrange(16, 20) =~= bytes@);
            lemma_be_value_bound(bytes@.subrange(16, 20));
            assert(power(256, 4) == 0x1_0000_0000) by {
                reveal_with_fuel(power, 5);
            }
        }
        Some(H160 { hi, lo: lo as u32 })
    }

    /// The twenty bytes of the address.
    pub fn to_be_bytes(&self) -> (r: Vec<u8>)
        ensures
            r@.len() == 20,
            be_value(r@) == self.value(),
    {
        let mut out: Vec<u8> = Vec::new();
        assert(be_value(out@) == 0);
        push_u64_be(&mut out, (self.hi / 0x1_0000_0000_0000_0000) as u64);
        push_u64_be(&mut out, (self.hi % 0x1_0000_0000_0000_0000) as u64);
        push_byte(&mut out, (self.lo / 0x100_0000) as u8);
        push_byte(&mut out, (self.lo / 0x1_0000 % 0x100) as u8);
        push_byte(&mut out, (self.lo / 0x100 % 0x100) as u8);
        push_byte(&mut out, (self.lo % 0x100) as u8);
        out
    }
}

impl H256 {
    /// The word read as a number, most significant byte first.
    pub open spec fn value(self) -> nat {
        (self.hi * 0x1_0000_0000_0000_0000_0000_0000_0000_0000 + self.lo) as nat
    }

    /// Reads a word from its thirty-two bytes. Gives `None` for any other
    /// number of bytes.
    pub fn from_be_bytes(bytes: &Vec<u8>) -> (r: Option<H256>)
        ensures
            match r {
                Some(word) => bytes@.len() == 32 && word.value() == be_value(bytes@),
                None => bytes@.len() != 32,
            },
    {
        if bytes.len() != 32 {
            return None;
        }
        let hi: u128 = read_be(bytes, 0, 16);
        let lo: u128 = read_be(bytes, 16, 32);
        proof {
            lemma_be_value_concat(bytes@.subrange(0, 16), bytes@.subrange(16, 32));
            assert(bytes@.subrange(0, 16) + bytes@.subrange(16, 32) =~= bytes@);
            assert(power(256, 16) == 0x1_0000_0000_0000_0000_0000_0000_0000_0000int) by {
                reveal_with_fuel(power, 17);
            }
        }
        Some(H256 { hi, lo })
    }

    /// The thirty-two bytes of the word.
    pub fn to_be_bytes(&self) -> (r: Vec<u8>)
        ensures
            r@.len() == 32,
            be_value(r@) == self.value(),
    {
        let mut out: Vec<u8> = Vec::new();
        assert(be_value(out@) == 0);
        push_u64_be(&mut out, (self.hi / 0x1_0000_0000_0000_0000) as u64);
        push_u64_be(&mut out, (self.hi % 0x1_0000_0000_0000_0000) as u64);
        push_u64_be(&mut out, (self.lo / 0x1_0000_0000_0000_0000) as u64);
        push_u64_be(&mut out, (self.lo % 0x1_0000_0000_0000_0000) as u64);
        out
    }
}

impl U256 {
    /// Zero.
    pub fn zero() -> (r: U256)
        ensures
            r@ == 0,
    {
        U256 { hi: 0, lo: 0 }
    }

    /// The integer with the value of `x`.
    pub fn from_u128(x: u128) -> (r: U256)
        ensures
            r@ == x,
    {
        U256 { hi: 0, lo: x }
    }

    /// Whether the integer is zero.
    pub fn is_zero(&self) -> (r: bool)
        ensures
            r == (self@ == 0),
    {
        self.hi == 0 && self.lo == 0
    }

    /// The integer as a `u32`, where it fits.
    pub fn to_u32(&self) -> (r: Option<u32>)
        ensures
            match r {
                Some(x) => x == self@,
                None => self@ > u32::MAX,
            },
    {
        if self.hi == 0 && self.lo <= 0xffff_ffff {
            Some(self.lo as u32)
        } else {
            None
        }
    }

    /// Reads an integer from its two's complement bytes, most significant
    /// first. Gives `None` where the bytes spell a negative number or one of
    /// more than 256 bits.
    pub fn from_signed_be_bytes(bytes: &Vec<u8>) -> (r: Option<U256>)
        ensures
            match r {
                Some(x) => x@ == signed_be_value(bytes@),
                None => signed_be_value(bytes@) < 0 || signed_be_value(bytes@) >= two_pow_256(),
            },
    {
        let n = bytes.len();
        if n > 0 && bytes[0] >= 128 {
            proof {
                lemma_be_value_bound(bytes@);
            }
            return None;
        }
        let mut acc = U256 { hi: 0, lo: 0 };
        let mut i: usize = 0;
        while i < n
            invariant
                n == bytes@.len(),
                0 <= i <= n,
                n == 0 || bytes@[0] < 128,
                acc@ == be_value(bytes@.take(i as int)),
            decreases n - i,
        {
            let b = bytes[i];
            proof {
                assert(bytes@.take(i + 1).drop_last() =~= bytes@.take(i as int));
                assert(bytes@.take(i + 1).last() == b);
            }
            if acc.hi >= 0x100_0000_0000_0000_0000_0000_0000_0000 {
                proof {
                    lemma_be_value_prefix(bytes@, i + 1);
                    crate::arith::lemma_power_positive(256, (n - i - 1) as nat);
                    let v = be_value(bytes@.take(i + 1)) as int;
                    let p = power(256, (n - i - 1) as nat);
                    assert(v >= two_pow_256());
                    assert(v * p >= v) by (nonlinear_arith)
                        requires
                            v >= 0,
                            p >= 1,
                    ;
                }
                return None;
            }
            let carry = acc.lo / 0x100_0000_0000_0000_0000_0000_0000_0000;
            let rest = acc.lo % 0x100_0000_0000_0000_0000_0000_0000_0000;
            acc = U256 { hi: acc.hi * 0x100 + carry, lo: rest * 0x100 + b as u128 };
            i = i + 1;
        }
        proof {
            assert(bytes@.take(n as int) =~= bytes@);
        }
        Some(acc)
    }

    /// The integer in two's complement, most significant byte first: a zero
    /// byte and the integer's thirty-two bytes.
    pub fn to_signed_be_bytes(&self) -> (r: Vec<u8>)
        ensures
            r@.len() == 33,
            r@[0] == 0,
            signed_be_value(r@) == self@,
            be_value(r@) == self@,
    {
        let mut out: Vec<u8> = Vec::new();
        out.push(0u8);
        proof {
            assert(out@.drop_last().len() == 0);
            assert(be_value(out@) == 0) by {
                reveal_with_fuel(be_value, 2);
            }
        }
        push_u64_be(&mut out, (self.hi / 0x1_0000_0000_0000_0000) as u64);
        push_u64_be(&mut out, (self.hi % 0x1_0000_0000_0000_0000) as u64);
        push_u64_be(&mut out, (self.lo / 0x1_0000_0000_0000_0000) as u64);
        push_u64_be(&mut out, (self.lo % 0x1_0000_0000_0000_0000) as u64);
        out
    }
}

} // verus!
