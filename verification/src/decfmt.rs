//! Verified decimal formatting of integers as ASCII bytes.
//!
//! The canonical commit payload spells the author and committer timestamps
//! in decimal and the timezone offset as two two-digit fields.

use vstd::prelude::*;

verus! {

/// Decimal digits of `n`, most significant first, without a sign and
/// without leading zeros (a single `0` for zero).
pub open spec fn dec_digits(n: nat) -> Seq<u8>
    decreases n,
{
    if n < 10 {
        seq![(48 + n) as u8]
    } else {
        dec_digits(n / 10) + seq![(48 + n % 10) as u8]
    }
}

/// Decimal spelling of an integer: a leading `-` for negative values.
pub open spec fn dec_int(n: int) -> Seq<u8> {
    if n < 0 {
        seq![45u8] + dec_digits((-n) as nat)
    } else {
        dec_digits(n as nat)
    }
}

/// Decimal spelling padded with `0` to at least two digits.
pub open spec fn pad2(n: nat) -> Seq<u8> {
    if n < 10 {
        seq![48u8] + dec_digits(n)
    } else {
        dec_digits(n)
    }
}

/// Format an unsigned integer in decimal.
pub fn format_u64(n: u64) -> (r: Vec<u8>)
    ensures
        r@ == dec_digits(n as nat),
{
    let mut digits: Vec<u8> = Vec::new();
    let mut m = n;
    while m >= 10
        invariant
            dec_digits(n as nat) == dec_digits(m as nat) + digits@,
        decreases m,
    {
        let d: u8 = (m % 10) as u8 + 48;
        let ghost pre = digits@;
        digits.insert(0, d);
        proof {
            assert(digits@ =~= seq![d] + pre);
            assert(dec_digits(m as nat) == dec_digits((m / 10) as nat) + seq![d]);
            assert(dec_digits(n as nat) =~= dec_digits((m / 10) as nat) + digits@);
        }
        m = m / 10;
    }
    let d: u8 = m as u8 + 48;
    let ghost pre = digits@;
    digits.insert(0, d);
    proof {
        assert(digits@ =~= seq![d] + pre);
        assert(dec_digits(n as nat) =~= digits@);
    }
    digits
}

/// Format a signed integer in decimal, with a leading `-` when negative.
pub fn format_i64(n: i64) -> (r: Vec<u8>)
    ensures
        r@ == dec_int(n as int),
{
    if n >= 0 {
        format_u64(n as u64)
    } else {
        let magnitude: u64 = (-(n as i128)) as u64;
        let mut digits = format_u64(magnitude);
        digits.insert(0, 45);
        proof {
            assert(digits@ =~= dec_int(n as int));
        }
        digits
    }
}

/// Format an unsigned integer in decimal, padded to at least two digits.
pub fn format_pad2(n: u64) -> (r: Vec<u8>)
    ensures
        r@ == pad2(n as nat),
{
    if n < 10 {
        let mut digits: Vec<u8> = Vec::new();
        digits.push(48);
        digits.push(48 + n as u8);
        proof {
            assert(digits@ =~= pad2(n as nat));
        }
        digits
    } else {
        format_u64(n)
    }
}

} // verus!
