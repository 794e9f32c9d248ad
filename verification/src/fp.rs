//! IEEE-754 binary64 scalars, handled as their 64-bit patterns.
//!
//! The verifier has no model of floating-point arithmetic, so a double is
//! carried as the `u64` holding its bit pattern, and the two operations the
//! engine needs — addition and decimal rendering — go through a software
//! implementation of IEEE-754 whose results are functions of the bit
//! patterns alone.

use vstd::prelude::*;

use rustc_apfloat::Float;
use rustc_apfloat::ieee::Double;

verus! {

/// The bit pattern with the sign bit cleared.
pub open spec fn abs_bits(bits: u64) -> u64 {
    bits & 0x7fff_ffff_ffff_ffff
}

/// The pattern encodes a NaN.
pub open spec fn is_nan_bits(bits: u64) -> bool {
    abs_bits(bits) > 0x7ff0_0000_0000_0000
}

/// The pattern encodes an infinity.
pub open spec fn is_inf_bits(bits: u64) -> bool {
    abs_bits(bits) == 0x7ff0_0000_0000_0000
}

/// The sign bit is set.
pub open spec fn is_neg_bits(bits: u64) -> bool {
    bits >= 0x8000_0000_0000_0000
}

pub fn is_nan(bits: u64) -> (r: bool)
    ensures
        r == is_nan_bits(bits),
{
    (bits & 0x7fff_ffff_ffff_ffff) > 0x7ff0_0000_0000_0000
}

pub fn is_inf(bits: u64) -> (r: bool)
    ensures
        r == is_inf_bits(bits),
{
    (bits & 0x7fff_ffff_ffff_ffff) == 0x7ff0_0000_0000_0000
}

pub fn is_neg(bits: u64) -> (r: bool)
    ensures
        r == is_neg_bits(bits),
{
    bits >= 0x8000_0000_0000_0000
}

/// The bit pattern of the IEEE-754 sum (round to nearest, ties to even) of
/// the doubles encoded by `a` and `b`.
pub uninterp spec fn sum_bits(a: u64, b: u64) -> u64;

/// The decimal rendering of the double encoded by `bits`, rounded to `prec`
/// significant digits.
pub uninterp spec fn digits_text(bits: u64, prec: nat) -> Seq<char>;

/// The bit pattern that the decimal text `s` parses to, rounded to nearest,
/// or `None` when `s` is not a decimal number.
pub uninterp spec fn parse_bits(s: Seq<char>) -> Option<u64>;

/// Relies on `rustc_apfloat`: `Double::add_r` with round-to-nearest-even is
/// a software implementation of IEEE-754 addition, a pure function of the
/// two operand bit patterns.
#[verifier::external_body]
pub(crate) fn add_bits(a: u64, b: u64) -> (r: u64)
    ensures
        r == sum_bits(a, b),
{
    let x = Double::from_bits(a as u128);
    let y = Double::from_bits(b as u128);
    (x + y).value.to_bits() as u64
}

/// Relies on `rustc_apfloat`: the `Display` impl of `Double` renders the
/// value in decimal with the given number of significant digits, a pure
/// function of the bit pattern and the precision.
#[verifier::external_body]
fn text_with_digits(bits: u64, prec: usize) -> (r: String)
    requires
        1 <= prec <= 17,
    ensures
        r@ == digits_text(bits, prec as nat),
{
    format!("{:.*}", prec, Double::from_bits(bits as u128))
}

/// Relies on `rustc_apfloat`: `Double::from_str` parses decimal text to the
/// nearest double, a pure function of the text.
#[verifier::external_body]
fn parse_double(s: &str) -> (r: Option<u64>)
    ensures
        r == parse_bits(s@),
{
    match s.parse::<Double>() {
        Ok(d) => Some(d.to_bits() as u64),
        Err(_) => None,
    }
}

/// The smallest precision from `p` up at which the decimal rendering parses
/// back to exactly `bits`; 17 digits always suffice and are the fallback.
pub open spec fn roundtrip_prec_from(bits: u64, p: nat) -> nat
    decreases 17 - p,
{
    if p >= 17 {
        17
    } else if parse_bits(digits_text(bits, p)) == Some(bits) {
        p
    } else {
        roundtrip_prec_from(bits, p + 1)
    }
}

/// The canonical text of the double encoded by `bits`: `NaN` and the two
/// infinities by name, every other value as the shortest decimal rendering
/// (at most 17 significant digits) that parses back to the same bit pattern.
pub open spec fn double_text(bits: u64) -> Seq<char> {
    if is_nan_bits(bits) {
        "NaN"@
    } else if is_inf_bits(bits) {
        if is_neg_bits(bits) {
            "-inf"@
        } else {
            "inf"@
        }
    } else {
        digits_text(bits, roundtrip_prec_from(bits, 1))
    }
}

/// Renders the double encoded by `bits` as canonical decimal text.
pub fn double_text_of(bits: u64) -> (r: String)
    ensures
        r@ == double_text(bits),
{
    if is_nan(bits) {
        return String::from_str("NaN");
    }
    if is_inf(bits) {
        if is_neg(bits) {
            return String::from_str("-inf");
        } else {
            return String::from_str("inf");
        }
    }
    let mut p: usize = 1;
    while p < 17
        invariant
            1 <= p <= 17,
            !is_nan_bits(bits),
            !is_inf_bits(bits),
            roundtrip_prec_from(bits, 1) == roundtrip_prec_from(bits, p as nat),
        decreases 17 - p,
    {
        let s = text_with_digits(bits, p);
        let parsed = parse_double(s.as_str());
        match parsed {
            Some(b2) => {
                if b2 == bits {
                    return s;
                }
            },
            None => {},
        }
        p = p + 1;
    }
    text_with_digits(bits, 17)
}

} // verus!
