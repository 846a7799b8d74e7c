//! Doubles, for the few places where the library must order them. A double is
//! held as its JSON number text; for a comparison it is read into its 64
//! IEEE 754 bits, and the bits are ordered here.

use vstd::prelude::*;

verus! {

/// The IEEE 754 bits of the double that a JSON number text denotes: its
/// own value for a number with a fraction or an exponent, the nearest double
/// for an integer. `None` where the text is no JSON number.
pub uninterp spec fn double_bits_of_text(text: Seq<char>) -> Option<u64>;

/// `serde_json::Number::from_str`, then `as_f64`, then `to_bits`.
#[verifier::external_body]
fn number_text_to_bits(text: &str) -> (r: Option<u64>)
    ensures
        r == double_bits_of_text(text@),
{
    text.parse::<serde_json::Number>().ok().and_then(|n| n.as_f64()).map(|d| d.to_bits())
}

pub open spec fn two_to_52() -> int {
    0x10_0000_0000_0000
}

pub open spec fn two_to_63() -> int {
    0x8000_0000_0000_0000
}

/// Not a number: the exponent is all ones and the fraction is not zero.
pub open spec fn is_nan(bits: u64) -> bool {
    (bits as int / two_to_52()) % 2048 == 2047 && bits as int % two_to_52() != 0
}

/// A number that orders doubles other than NaN as their values are ordered:
/// the magnitude, negated under the sign bit (so that both zeros are 0).
pub open spec fn order_key(bits: u64) -> int {
    let magnitude = bits as int % two_to_63();
    if bits as int >= two_to_63() {
        -magnitude
    } else {
        magnitude
    }
}

/// `a < b` as IEEE 754 has it: false where either is NaN, and for the two zeros.
pub open spec fn bits_less(a: u64, b: u64) -> bool {
    !is_nan(a) && !is_nan(b) && order_key(a) < order_key(b)
}

/// The bits of the double that the text denotes; those of 0.0 where it denotes none.
pub open spec fn bits_or_zero(text: Seq<char>) -> u64 {
    match double_bits_of_text(text) {
        Some(bits) => bits,
        None => 0,
    }
}

/// The number that the text `a` denotes is less than the one that `b` denotes,
/// a text that denotes none counting as 0.0.
pub open spec fn text_less(a: Seq<char>, b: Seq<char>) -> bool {
    bits_less(bits_or_zero(a), bits_or_zero(b))
}

fn bits_is_nan(bits: u64) -> (r: bool)
    ensures
        r == is_nan(bits),
{
    (bits / 0x10_0000_0000_0000u64) % 2048 == 2047 && bits % 0x10_0000_0000_0000u64 != 0
}

fn bits_order_key(bits: u64) -> (r: i128)
    ensures
        r == order_key(bits),
{
    let magnitude: u64 = bits % 0x8000_0000_0000_0000u64;
    if bits >= 0x8000_0000_0000_0000u64 {
        -(magnitude as i128)
    } else {
        magnitude as i128
    }
}

/// Whether the double with the bits `a` is less than the one with the bits `b`.
pub fn double_less(a: u64, b: u64) -> (r: bool)
    ensures
        r == bits_less(a, b),
{
    !bits_is_nan(a) && !bits_is_nan(b) && bits_order_key(a) < bits_order_key(b)
}

/// The bits of the double that a JSON number text denotes.
pub fn double_bits(text: &str) -> (r: Option<u64>)
    ensures
        r == double_bits_of_text(text@),
{
    number_text_to_bits(text)
}

/// Whether the number that `a` denotes is less than the one that `b` denotes,
/// a text that denotes none counting as 0.0.
pub fn number_text_less(a: &str, b: &str) -> (r: bool)
    ensures
        r == text_less(a@, b@),
{
    let x: u64 = match number_text_to_bits(a) {
        Some(bits) => bits,
        None => 0,
    };
    let y: u64 = match number_text_to_bits(b) {
        Some(bits) => bits,
        None => 0,
    };
    double_less(x, y)
}

} // verus!
