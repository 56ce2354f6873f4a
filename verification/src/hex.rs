//! Verified lowercase hex encoding and decoding.
//!
//! The signature header carries a keyed digest as 64 lowercase hex digits,
//! and commit object ids travel as 40 hex digits; both are decoded here.

use vstd::prelude::*;

verus! {

/// Lowercase hex digit: `0`-`9` or `a`-`f`.
pub open spec fn is_lower_hex_digit(b: u8) -> bool {
    (48 <= b && b <= 57) || (97 <= b && b <= 102)
}

/// Hex digit of either case: `0`-`9`, `a`-`f` or `A`-`F`.
pub open spec fn is_hex_digit(b: u8) -> bool {
    is_lower_hex_digit(b) || (65 <= b && b <= 70)
}

/// Numeric value of a hex digit of either case.
pub open spec fn hex_digit_value(b: u8) -> u8 {
    if 48 <= b && b <= 57 {
        (b - 48) as u8
    } else if 65 <= b && b <= 70 {
        (b - 55) as u8
    } else {
        (b - 87) as u8
    }
}

/// Lowercase digit for a nibble value below 16.
pub open spec fn hex_digit_of(v: u8) -> u8 {
    if v < 10 {
        (v + 48) as u8
    } else {
        (v + 87) as u8
    }
}

/// Every byte of `s` is a lowercase hex digit.
pub open spec fn all_lower_hex(s: Seq<u8>) -> bool {
    forall|i: int| 0 <= i < s.len() ==> is_lower_hex_digit(#[trigger] s[i])
}

/// Every byte of `s` is a hex digit of either case.
pub open spec fn all_hex(s: Seq<u8>) -> bool {
    forall|i: int| 0 <= i < s.len() ==> is_hex_digit(#[trigger] s[i])
}

/// Lowercase hex encoding of a byte sequence: two digits per byte, high
/// nibble first.
pub open spec fn hex_lower(bytes: Seq<u8>) -> Seq<u8> {
    Seq::new(
        bytes.len() * 2,
        |i: int| if i % 2 == 0 {
            hex_digit_of(bytes[i / 2] / 16)
        } else {
            hex_digit_of(bytes[i / 2] % 16)
        },
    )
}

/// Bytes denoted by an even-length sequence of hex digits.
pub open spec fn hex_value(digits: Seq<u8>) -> Seq<u8> {
    Seq::new(
        digits.len() / 2,
        |i: int| (hex_digit_value(digits[2 * i]) * 16 + hex_digit_value(digits[2 * i + 1])) as u8,
    )
}

/// Value of a lowercase hex digit, or `None` for any other byte.
fn lower_hex_digit_value(b: u8) -> (r: Option<u8>)
    ensures
        r is Some <==> is_lower_hex_digit(b),
        r is Some ==> r->0 == hex_digit_value(b) && r->0 < 16,
{
    if 48 <= b && b <= 57 {
        Some(b - 48)
    } else if 97 <= b && b <= 102 {
        Some(b - 87)
    } else {
        None
    }
}

/// Value of a hex digit of either case, or `None` for any other byte.
fn any_hex_digit_value(b: u8) -> (r: Option<u8>)
    ensures
        r is Some <==> is_hex_digit(b),
        r is Some ==> r->0 == hex_digit_value(b) && r->0 < 16,
{
    if 48 <= b && b <= 57 {
        Some(b - 48)
    } else if 97 <= b && b <= 102 {
        Some(b - 87)
    } else if 65 <= b && b <= 70 {
        Some(b - 55)
    } else {
        None
    }
}

/// Lowercase digit byte for a nibble value below 16.
fn lower_hex_digit_of(v: u8) -> (r: u8)
    requires
        v < 16,
    ensures
        r == hex_digit_of(v),
{
    if v < 10 {
        v + 48
    } else {
        v + 87
    }
}

/// Decode a string of lowercase hex digits; any uppercase digit, other byte,
/// or odd length is rejected.
pub fn decode_hex_lower(digits: &[u8]) -> (r: Option<Vec<u8>>)
    ensures
        r is Some <==> (digits@.len() % 2 == 0 && all_lower_hex(digits@)),
        r is Some ==> r->0@ == hex_value(digits@),
{
    if digits.len() % 2 != 0 {
        return None;
    }
    let mut out: Vec<u8> = Vec::new();
    let mut i: usize = 0;
    while i < digits.len()
        invariant
            i % 2 == 0,
            i <= digits@.len(),
            digits@.len() % 2 == 0,
            forall|j: int| 0 <= j < i ==> is_lower_hex_digit(#[trigger] digits@[j]),
            out@ == hex_value(digits@.take(i as int)),
        decreases digits@.len() - i,
    {
        let hi = match lower_hex_digit_value(digits[i]) {
            Some(v) => v,
            None => {
                return None;
            },
        };
        let lo = match lower_hex_digit_value(digits[i + 1]) {
            Some(v) => v,
            None => {
                return None;
            },
        };
        out.push(hi * 16 + lo);
        proof {
            assert(out@ =~= hex_value(digits@.take(i + 2 as int)));
        }
        i = i + 2;
    }
    proof {
        assert(digits@.take(i as int) =~= digits@);
    }
    Some(out)
}

/// Decode a string of hex digits of either case; any other byte or an odd
/// length is rejected.
pub fn decode_hex_any(digits: &[u8]) -> (r: Option<Vec<u8>>)
    ensures
        r is Some <==> (digits@.len() % 2 == 0 && all_hex(digits@)),
        r is Some ==> r->0@ == hex_value(digits@),
{
    if digits.len() % 2 != 0 {
        return None;
    }
    let mut out: Vec<u8> = Vec::new();
    let mut i: usize = 0;
    while i < digits.len()
        invariant
            i % 2 == 0,
            i <= digits@.len(),
            digits@.len() % 2 == 0,
            forall|j: int| 0 <= j < i ==> is_hex_digit(#[trigger] digits@[j]),
            out@ == hex_value(digits@.take(i as int)),
        decreases digits@.len() - i,
    {
        let hi = match any_hex_digit_value(digits[i]) {
            Some(v) => v,
            None => {
                return None;
            },
        };
        let lo = match any_hex_digit_value(digits[i + 1]) {
            Some(v) => v,
            None => {
                return None;
            },
        };
        out.push(hi * 16 + lo);
        proof {
            assert(out@ =~= hex_value(digits@.take(i + 2 as int)));
        }
        i = i + 2;
    }
    proof {
        assert(digits@.take(i as int) =~= digits@);
    }
    Some(out)
}

/// Encode bytes as lowercase hex, two digits per byte.
pub fn encode_hex_lower(bytes: &[u8]) -> (r: Vec<u8>)
    ensures
        r@ == hex_lower(bytes@),
{
    let mut out: Vec<u8> = Vec::new();
    let mut i: usize = 0;
    while i < bytes.len()
        invariant
            i <= bytes@.len(),
            out@ == hex_lower(bytes@.take(i as int)),
        decreases bytes@.len() - i,
    {
        let b = bytes[i];
        out.push(lower_hex_digit_of(b / 16));
        out.push(lower_hex_digit_of(b % 16));
        proof {
            assert(out@ =~= hex_lower(bytes@.take(i + 1 as int)));
        }
        i = i + 1;
    }
    proof {
        assert(bytes@.take(i as int) =~= bytes@);
    }
    out
}

/// A nibble survives the round trip through its lowercase digit.
proof fn lemma_digit_round_trip(v: u8)
    requires
        v < 16,
    ensures
        is_lower_hex_digit(hex_digit_of(v)),
        hex_digit_value(hex_digit_of(v)) == v,
{
}

/// Encoding is a left inverse of decoding: lowercase hex digits are
/// reproduced exactly by re-encoding their value.
pub proof fn lemma_hex_lower_of_value(digits: Seq<u8>)
    requires
        digits.len() % 2 == 0,
        all_lower_hex(digits),
    ensures
        hex_lower(hex_value(digits)) == digits,
{
    let enc = hex_lower(hex_value(digits));
    assert forall|i: int| 0 <= i < enc.len() implies enc[i] == digits[i] by {
        let b = hex_value(digits)[i / 2];
        let hi = hex_digit_value(digits[2 * (i / 2)]);
        let lo = hex_digit_value(digits[2 * (i / 2) + 1]);
        assert(hi < 16 && lo < 16);
        assert(b == hi * 16 + lo);
        assert(b / 16 == hi && b % 16 == lo) by (nonlinear_arith)
            requires
                hi < 16 && lo < 16 && b == hi * 16 + lo,
        ;
        if i % 2 == 0 {
            lemma_digit_round_trip(hi);
            assert(digits[2 * (i / 2)] == digits[i]);
            assert(hex_digit_of(hex_digit_value(digits[i])) == digits[i]);
        } else {
            lemma_digit_round_trip(lo);
            assert(2 * (i / 2) + 1 == i);
            assert(hex_digit_of(hex_digit_value(digits[i])) == digits[i]);
        }
    }
    assert(enc =~= digits);
}

/// Decoding is a left inverse of encoding, and an encoding is always an
/// even-length string of lowercase digits.
pub proof fn lemma_hex_value_of_lower(bytes: Seq<u8>)
    ensures
        hex_value(hex_lower(bytes)) == bytes,
        hex_lower(bytes).len() == bytes.len() * 2,
        all_lower_hex(hex_lower(bytes)),
{
    let enc = hex_lower(bytes);
    assert forall|i: int| 0 <= i < enc.len() implies is_lower_hex_digit(#[trigger] enc[i]) by {
        let b = bytes[i / 2];
        assert(b / 16 < 16 && b % 16 < 16);
        if i % 2 == 0 {
            lemma_digit_round_trip(b / 16);
        } else {
            lemma_digit_round_trip(b % 16);
        }
    }
    let dec = hex_value(enc);
    assert forall|i: int| 0 <= i < dec.len() implies dec[i] == bytes[i] by {
        let b = bytes[i];
        assert(enc[2 * i] == hex_digit_of(b / 16));
        assert(enc[2 * i + 1] == hex_digit_of(b % 16));
        assert(b / 16 < 16 && b % 16 < 16);
        lemma_digit_round_trip(b / 16);
        lemma_digit_round_trip(b % 16);
        assert((b / 16) * 16 + b % 16 == b) by (nonlinear_arith);
    }
    assert(dec =~= bytes);
}

} // verus!
