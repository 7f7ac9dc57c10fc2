//! IEEE 754 binary64 arithmetic on bit patterns, computed in software by
//! `rustc_apfloat`. Nothing is proved of the numbers themselves: each result
//! is named, and the contracts say which operation gave it.

use rustc_apfloat::ieee::Double;
use rustc_apfloat::Float;
use vstd::prelude::*;

verus! {

/// The binary64 number nearest to an integer, ties to even.
pub uninterp spec fn float_of_int(n: i64) -> u64;

/// The binary64 sum of two binary64 numbers.
pub uninterp spec fn float_sum(a: u64, b: u64) -> u64;

/// The binary64 difference of two binary64 numbers.
pub uninterp spec fn float_difference(a: u64, b: u64) -> u64;

/// The binary64 product of two binary64 numbers.
pub uninterp spec fn float_product(a: u64, b: u64) -> u64;

/// The binary64 quotient of two binary64 numbers.
pub uninterp spec fn float_quotient(a: u64, b: u64) -> u64;

/// The binary64 number that a decimal literal denotes, if it denotes one.
pub uninterp spec fn float_of_decimal(literal: Seq<char>) -> Option<u64>;

/// The decimal text of a binary64 number.
pub uninterp spec fn float_text(bits: u64) -> Seq<char>;

/// Converts an integer to binary64 with `Float::from_i128`, which rounds to
/// nearest, ties to even. Only the bit pattern of the result is named.
#[verifier::external_body]
pub(crate) fn int_to_float(n: i64) -> (r: u64)
    ensures
        r == float_of_int(n),
{
    Double::from_i128(n as i128).value.to_bits() as u64
}

/// Adds two binary64 numbers with `Add` of `IeeeFloat`, rounding to nearest,
/// ties to even. Only the bit pattern of the result is named.
#[verifier::external_body]
pub(crate) fn float_add(a: u64, b: u64) -> (r: u64)
    ensures
        r == float_sum(a, b),
{
    (Double::from_bits(a as u128) + Double::from_bits(b as u128)).value.to_bits() as u64
}

/// Subtracts two binary64 numbers with `Sub` of `IeeeFloat`. Only the bit
/// pattern of the result is named.
#[verifier::external_body]
pub(crate) fn float_sub(a: u64, b: u64) -> (r: u64)
    ensures
        r == float_difference(a, b),
{
    (Double::from_bits(a as u128) - Double::from_bits(b as u128)).value.to_bits() as u64
}

/// Multiplies two binary64 numbers with `Mul` of `IeeeFloat`. Only the bit
/// pattern of the result is named.
#[verifier::external_body]
pub(crate) fn float_mul(a: u64, b: u64) -> (r: u64)
    ensures
        r == float_product(a, b),
{
    (Double::from_bits(a as u128) * Double::from_bits(b as u128)).value.to_bits() as u64
}

/// Divides two binary64 numbers with `Div` of `IeeeFloat`; a zero divisor
/// gives an infinity or a NaN as IEEE 754 says. Only the bit pattern of the
/// result is named.
#[verifier::external_body]
pub(crate) fn float_div(a: u64, b: u64) -> (r: u64)
    ensures
        r == float_quotient(a, b),
{
    (Double::from_bits(a as u128) / Double::from_bits(b as u128)).value.to_bits() as u64
}

/// Reads a decimal literal with `FromStr` of `IeeeFloat`, which rounds to
/// nearest, ties to even, and refuses text that is no number.
#[verifier::external_body]
pub(crate) fn float_parse(literal: &str) -> (r: Option<u64>)
    ensures
        r == float_of_decimal(literal@),
{
    match literal.parse::<Double>() {
        Ok(d) => Some(d.to_bits() as u64),
        Err(_) => None,
    }
}

/// Writes a binary64 number in decimal with `Display` of `IeeeFloat`.
#[verifier::external_body]
pub(crate) fn float_render(bits: u64) -> (r: String)
    ensures
        r@ == float_text(bits),
{
    format!("{}", Double::from_bits(bits as u128))
}

} // verus!
