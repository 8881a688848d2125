//! Bytes written as hexadecimal digits, the way addresses, identifiers and
//! hashes travel in JSON: two digits per byte, after `0x`.

use vstd::prelude::*;

verus! {

/// The value of the hexadecimal digit `c`, whether a letter is in upper or
/// in lower case.
pub open spec fn digit(c: u8) -> Option<u8> {
    if 48 <= c <= 57 {
        Some((c - 48) as u8)
    } else if 97 <= c <= 102 {
        Some((c - 87) as u8)
    } else if 65 <= c <= 70 {
        Some((c - 55) as u8)
    } else {
        None
    }
}

/// The digit for `value`, with letters in lower case.
pub open spec fn lower(value: u8) -> u8 {
    if value < 10 {
        (48 + value) as u8
    } else {
        (87 + value) as u8
    }
}

/// `text` without a leading `0x`.
pub open spec fn body(text: Seq<u8>) -> Seq<u8> {
    if text.len() >= 2 && text[0] == 48 && text[1] == 120 {
        text.skip(2)
    } else {
        text
    }
}

/// Whether `digits` are hexadecimal digits, two for each byte.
pub open spec fn well_formed(digits: Seq<u8>) -> bool {
    &&& digits.len() % 2 == 0
    &&& forall|i: int| 0 <= i < digits.len() ==> digit(#[trigger] digits[i]) is Some
}

/// The bytes that `digits` spell, two digits to a byte.
pub open spec fn bytes_of(digits: Seq<u8>) -> Seq<u8> {
    Seq::new(
        digits.len() / 2,
        |i: int| (digit(digits[2 * i]).unwrap() * 16 + digit(digits[2 * i + 1]).unwrap()) as u8,
    )
}

/// The bytes that `text` spells, where it is hexadecimal digits with or
/// without a leading `0x`.
pub open spec fn parsed(text: Seq<u8>) -> Option<Seq<u8>> {
    if well_formed(body(text)) {
        Some(bytes_of(body(text)))
    } else {
        None
    }
}

/// `bytes` in hexadecimal digits after `0x`, with letters in lower case.
pub open spec fn written(bytes: Seq<u8>) -> Seq<u8> {
    seq![48u8, 120u8] + Seq::new(
        2 * bytes.len(),
        |i: int|
            if i % 2 == 0 {
                lower(bytes[i / 2] / 16)
            } else {
                lower(bytes[i / 2] % 16)
            },
    )
}

/// The value of one hexadecimal digit.
fn digit_value(c: u8) -> (r: Option<u8>)
    ensures
        r == digit(c),
        r matches Some(value) ==> value < 16,
{
    if 48 <= c && c <= 57 {
        Some(c - 48)
    } else if 97 <= c && c <= 102 {
        Some(c - 87)
    } else if 65 <= c && c <= 70 {
        Some(c - 55)
    } else {
        None
    }
}

/// The digit for a value below sixteen.
fn lower_digit(value: u8) -> (r: u8)
    requires
        value < 16,
    ensures
        r == lower(value),
        digit(r) == Some(value),
{
    if value < 10 {
        48 + value
    } else {
        87 + value
    }
}

/// Reads bytes from ASCII text in hexadecimal, with or without a leading
/// `0x`. Gives `None` for an odd number of digits and for anything that is
/// not a digit.
pub fn decode(text: &Vec<u8>) -> (r: Option<Vec<u8>>)
    ensures
        match r {
            Some(bytes) => parsed(text@) == Some(bytes@),
            None => parsed(text@) is None,
        },
{
    let n: usize = text.len();
    let start: usize = if n >= 2 && text[0] == 48 && text[1] == 120 {
        2
    } else {
        0
    };
    let ghost digits = body(text@);
    assert(digits =~= text@.skip(start as int));
    if (n - start) % 2 != 0 {
        return None;
    }
    let mut bytes: Vec<u8> = Vec::new();
    let mut i: usize = start;
    while i < n
        invariant
            start <= i <= n == text@.len(),
            (i - start) % 2 == 0,
            (n - start) % 2 == 0,
            digits == body(text@),
            digits == text@.skip(start as int),
            bytes@.len() == (i - start) / 2,
            forall|k: int| 0 <= k < i - start ==> digit(#[trigger] digits[k]) is Some,
            forall|k: int| 0 <= k < bytes@.len() ==> bytes@[k] == bytes_of(digits)[k],
        decreases n - i,
    {
        let high: u8 = match digit_value(text[i]) {
            Some(value) => value,
            None => {
                assert(digit(digits[i - start]) is None);
                return None;
            },
        };
        let low: u8 = match digit_value(text[i + 1]) {
            Some(value) => value,
            None => {
                assert(digit(digits[i + 1 - start]) is None);
                return None;
            },
        };
        proof {
            let at = (i - start) / 2;
            assert(digits[2 * at] == text@[i as int]);
            assert(digits[2 * at + 1] == text@[i + 1]);
        }
        bytes.push(high * 16 + low);
        i = i + 2;
    }
    assert(bytes@ =~= bytes_of(digits));
    Some(bytes)
}

/// Writes bytes as ASCII text in hexadecimal after `0x`, with letters in
/// lower case.
pub fn encode(bytes: &Vec<u8>) -> (r: Vec<u8>)
    ensures
        r@ == written(bytes@),
{
    let mut text: Vec<u8> = Vec::new();
    text.push(48u8);
    text.push(120u8);
    let n: usize = bytes.len();
    let mut i: usize = 0;
    while i < n
        invariant
            0 <= i <= n == bytes@.len(),
            text@.len() == 2 + 2 * i,
            text@.take(2) == seq![48u8, 120u8],
            forall|k: int| 0 <= k < 2 * i ==> #[trigger] text@[2 + k] == written(bytes@)[2 + k],
        decreases n - i,
    {
        let byte: u8 = bytes[i];
        text.push(lower_digit(byte / 16));
        text.push(lower_digit(byte % 16));
        assert(text@.take(2) =~= seq![48u8, 120u8]);
        i = i + 1;
    }
    assert(text@ =~= written(bytes@)) by {
        assert forall|k: int| 0 <= k < text@.len() implies text@[k] == written(bytes@)[k] by {
            if k < 2 {
                assert(text@[k] == text@.take(2)[k]);
            } else {
                assert(text@[2 + (k - 2)] == written(bytes@)[2 + (k - 2)]);
            }
        }
    }
    text
}

/// What was written is read back as it was.
pub proof fn lemma_written_is_parsed(bytes: Seq<u8>)
    ensures
        parsed(written(bytes)) == Some(bytes),
{
    let text = written(bytes);
    let digits = body(text);
    assert(digits =~= text.skip(2));
    assert forall|i: int| 0 <= i < digits.len() implies digit(#[trigger] digits[i]) is Some by {
        assert(digits[i] == text[i + 2]);
    }
    assert(bytes_of(digits) =~= bytes) by {
        assert forall|k: int| 0 <= k < bytes.len() implies bytes_of(digits)[k] == bytes[k] by {
            assert(digits[2 * k] == text[2 * k + 2]);
            assert(digits[2 * k + 1] == text[2 * k + 3]);
            assert((2 * k) % 2 == 0) by (nonlinear_arith);
            assert((2 * k) / 2 == k) by (nonlinear_arith);
            assert((2 * k + 1) % 2 == 1) by (nonlinear_arith);
            assert((2 * k + 1) / 2 == k) by (nonlinear_arith)
                requires
                    k >= 0,
            ;
        }
    }
}

} // verus!
