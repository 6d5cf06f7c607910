//! Numbers of the language: IEEE 754 binary64 values, held as their 64 bits.
//!
//! Order, equality and the test for zero are decided here on the bits.
//! Arithmetic and the reading of decimal literals are computed by
//! `rustc_apfloat`; their results are named, not defined.

use vstd::prelude::*;
use rustc_apfloat::ieee::Double;
use rustc_apfloat::Float;
use rustc_apfloat::ParseError;

verus! {

/// The bit that holds the sign.
pub const SIGN_BIT: u64 = 0x8000_0000_0000_0000;

/// The bits of positive infinity; a larger magnitude is a NaN.
pub const INFINITY_BITS: u64 = 0x7ff0_0000_0000_0000;

/// The bits of `x` without its sign.
pub open spec fn magnitude(x: u64) -> u64 {
    if x >= SIGN_BIT {
        (x - SIGN_BIT) as u64
    } else {
        x
    }
}

pub open spec fn is_negative(x: u64) -> bool {
    x >= SIGN_BIT
}

pub open spec fn is_nan(x: u64) -> bool {
    magnitude(x) > INFINITY_BITS
}

/// Both zeros, the positive and the negative one.
pub open spec fn is_zero(x: u64) -> bool {
    magnitude(x) == 0
}

/// Where `x` stands among the numbers that are no NaN: an integer that grows
/// with the value, the same for both zeros.
pub open spec fn order_key(x: u64) -> int {
    if is_negative(x) {
        -(magnitude(x) as int)
    } else {
        magnitude(x) as int
    }
}

/// `a < b` as IEEE 754 has it: false as soon as one side is a NaN.
pub open spec fn less(a: u64, b: u64) -> bool {
    !is_nan(a) && !is_nan(b) && order_key(a) < order_key(b)
}

/// `a <= b` as IEEE 754 has it.
pub open spec fn less_equal(a: u64, b: u64) -> bool {
    !is_nan(a) && !is_nan(b) && order_key(a) <= order_key(b)
}

/// `a == b` as IEEE 754 has it: a NaN equals nothing, the two zeros are equal.
pub open spec fn equal(a: u64, b: u64) -> bool {
    !is_nan(a) && !is_nan(b) && order_key(a) == order_key(b)
}

/// The bits of `a + b`, rounded to nearest, ties to even.
pub uninterp spec fn bits_sum(a: u64, b: u64) -> u64;

/// The bits of `a - b`, rounded to nearest, ties to even.
pub uninterp spec fn bits_difference(a: u64, b: u64) -> u64;

/// The bits of `a * b`, rounded to nearest, ties to even.
pub uninterp spec fn bits_product(a: u64, b: u64) -> u64;

/// The bits of `a / b`, rounded to nearest, ties to even.
pub uninterp spec fn bits_quotient(a: u64, b: u64) -> u64;

/// The bits of the number that a decimal text stands for, or nothing where
/// the text is no number.
pub uninterp spec fn decimal_bits(text: Seq<char>) -> Option<u64>;

/// `rustc_apfloat::ParseError`, the reason why a text is no number. Nothing
/// of it is looked into here.
#[verifier::external_type_specification]
#[verifier::external_body]
pub struct ExParseError(ParseError);

/// Addition of `rustc_apfloat::ieee::Double` (`Add::add`, which rounds to
/// nearest, ties to even). The result depends on the two operands alone and
/// is named `bits_sum`; nothing else is claimed of it.
#[verifier::external_body]
pub(crate) fn sum(a: u64, b: u64) -> (r: u64)
    ensures
        r == bits_sum(a, b),
{
    (Double::from_bits(a as u128) + Double::from_bits(b as u128)).value.to_bits() as u64
}

/// Subtraction of `rustc_apfloat::ieee::Double` (`Sub::sub`), named
/// `bits_difference`.
#[verifier::external_body]
pub(crate) fn difference(a: u64, b: u64) -> (r: u64)
    ensures
        r == bits_difference(a, b),
{
    (Double::from_bits(a as u128) - Double::from_bits(b as u128)).value.to_bits() as u64
}

/// Multiplication of `rustc_apfloat::ieee::Double` (`Mul::mul`), named
/// `bits_product`.
#[verifier::external_body]
pub(crate) fn product(a: u64, b: u64) -> (r: u64)
    ensures
        r == bits_product(a, b),
{
    (Double::from_bits(a as u128) * Double::from_bits(b as u128)).value.to_bits() as u64
}

/// Division of `rustc_apfloat::ieee::Double` (`Div::div`), named
/// `bits_quotient`. A zero divisor gives an infinity or a NaN, never a panic.
#[verifier::external_body]
pub(crate) fn quotient(a: u64, b: u64) -> (r: u64)
    ensures
        r == bits_quotient(a, b),
{
    (Double::from_bits(a as u128) / Double::from_bits(b as u128)).value.to_bits() as u64
}

/// `FromStr::from_str` of `rustc_apfloat::ieee::Double`. The outcome depends
/// on the text alone and is named `decimal_bits`: the bits where the crate
/// reads a number, nothing where it reports a `ParseError`.
#[verifier::external_body]
pub(crate) fn read_decimal(text: &str) -> (r: Result<u64, ParseError>)
    ensures
        r matches Ok(bits) ==> decimal_bits(text@) == Some(bits),
        r is Err ==> decimal_bits(text@) is None,
{
    match text.parse::<Double>() {
        Ok(number) => Ok(number.to_bits() as u64),
        Err(e) => Err(e),
    }
}

/// Reads a decimal literal.
pub fn parse_decimal(text: &str) -> (r: Option<u64>)
    ensures
        r == decimal_bits(text@),
{
    match read_decimal(text) {
        Ok(bits) => Some(bits),
        Err(_) => None,
    }
}

/// Whether `x` is one of the two zeros.
pub fn zero(x: u64) -> (r: bool)
    ensures
        r == is_zero(x),
{
    x == 0 || x == SIGN_BIT
}

fn magnitude_of(x: u64) -> (r: u64)
    ensures
        r == magnitude(x),
{
    if x >= SIGN_BIT {
        x - SIGN_BIT
    } else {
        x
    }
}

/// Whether `x` is a NaN.
pub fn nan(x: u64) -> (r: bool)
    ensures
        r == is_nan(x),
{
    magnitude_of(x) > INFINITY_BITS
}

/// `a < b`.
pub fn lt(a: u64, b: u64) -> (r: bool)
    ensures
        r == less(a, b),
{
    if nan(a) || nan(b) {
        return false;
    }
    let ma = magnitude_of(a);
    let mb = magnitude_of(b);
    if a >= SIGN_BIT {
        if b >= SIGN_BIT {
            mb < ma
        } else {
            ma != 0 || mb != 0
        }
    } else {
        if b >= SIGN_BIT {
            false
        } else {
            ma < mb
        }
    }
}

/// `a == b`, where a NaN equals nothing and the two zeros are equal.
pub fn eq(a: u64, b: u64) -> (r: bool)
    ensures
        r == equal(a, b),
{
    if nan(a) || nan(b) {
        return false;
    }
    a == b || (zero(a) && zero(b))
}

/// `a <= b`.
pub fn le(a: u64, b: u64) -> (r: bool)
    ensures
        r == less_equal(a, b),
{
    lt(a, b) || eq(a, b)
}

} // verus!
