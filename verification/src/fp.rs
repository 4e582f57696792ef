//! IEEE-754 double-precision values, carried as their 64-bit patterns.
//!
//! The interpreter stores every float as the `u64` bit pattern of an IEEE
//! double. All arithmetic, parsing and rendering of such values is delegated
//! to the `rustc_apfloat` software implementation of IEEE-754; each operation
//! is a function of the argument bits alone, so its result is given a name
//! that the callers' contracts use exactly.

use vstd::prelude::*;
use rustc_apfloat::Float;
use rustc_apfloat::ieee::Double;

verus! {

/// The bit pattern of the IEEE double sum of the doubles with bits `a` and `b`,
/// rounded to nearest, ties to even.
pub uninterp spec fn fp_sum(a: u64, b: u64) -> u64;

/// The bit pattern of the IEEE double difference `a - b`.
pub uninterp spec fn fp_difference(a: u64, b: u64) -> u64;

/// The bit pattern of the IEEE double product `a * b`.
pub uninterp spec fn fp_product(a: u64, b: u64) -> u64;

/// The bit pattern of the IEEE double quotient `a / b`.
pub uninterp spec fn fp_quotient(a: u64, b: u64) -> u64;

/// The bit pattern of the C `fmod` remainder of the doubles `a` and `b`.
pub uninterp spec fn fp_remainder(a: u64, b: u64) -> u64;

/// The bit pattern of the IEEE double nearest to the integer `i`.
pub uninterp spec fn fp_of_int(i: i64) -> u64;

/// The bit pattern of the IEEE double denoted by the decimal text `s`
/// (`None` where the text is not a decimal number).
pub uninterp spec fn fp_of_dec(s: Seq<char>) -> Option<u64>;

/// The decimal rendering of the IEEE double with bits `b`.
pub uninterp spec fn fp_dec(b: u64) -> Seq<char>;

/// IEEE equality of the doubles with bits `a` and `b` (false for NaN operands).
pub uninterp spec fn fp_eq(a: u64, b: u64) -> bool;

/// IEEE less-than of the doubles with bits `a` and `b` (false for NaN operands).
pub uninterp spec fn fp_lt(a: u64, b: u64) -> bool;

/// The bit pattern of the negated double: the sign bit flipped.
pub open spec fn fp_neg(b: u64) -> u64 {
    b ^ 0x8000_0000_0000_0000u64
}

/// Text shaped like the numeric literals the lexer accepts: at least one
/// decimal digit, nothing but digits and dots, and at most one dot.
pub open spec fn decimal_shape(s: Seq<char>) -> bool {
    &&& (exists|i: int| 0 <= i < s.len() && '0' <= #[trigger] s[i] <= '9')
    &&& (forall|i: int| 0 <= i < s.len() ==> ('0' <= #[trigger] s[i] <= '9' || s[i] == '.'))
    &&& s.filter(|c: char| c == '.').len() <= 1
}

/// Relies on `rustc_apfloat::ieee::Double`'s `Add`: the round-to-nearest sum
/// of the two doubles, a function of the two bit patterns alone.
#[verifier::external_body]
pub(crate) fn fp_add(a: u64, b: u64) -> (r: u64)
    ensures
        r == fp_sum(a, b),
{
    (Double::from_bits(a as u128) + Double::from_bits(b as u128)).value.to_bits() as u64
}

/// Relies on `rustc_apfloat::ieee::Double`'s `Sub`: the round-to-nearest
/// difference of the two doubles.
#[verifier::external_body]
pub(crate) fn fp_sub(a: u64, b: u64) -> (r: u64)
    ensures
        r == fp_difference(a, b),
{
    (Double::from_bits(a as u128) - Double::from_bits(b as u128)).value.to_bits() as u64
}

/// Relies on `rustc_apfloat::ieee::Double`'s `Mul`: the round-to-nearest
/// product of the two doubles.
#[verifier::external_body]
pub(crate) fn fp_mul(a: u64, b: u64) -> (r: u64)
    ensures
        r == fp_product(a, b),
{
    (Double::from_bits(a as u128) * Double::from_bits(b as u128)).value.to_bits() as u64
}

/// Relies on `rustc_apfloat::ieee::Double`'s `Div`: the round-to-nearest
/// quotient of the two doubles.
#[verifier::external_body]
pub(crate) fn fp_div(a: u64, b: u64) -> (r: u64)
    ensures
        r == fp_quotient(a, b),
{
    (Double::from_bits(a as u128) / Double::from_bits(b as u128)).value.to_bits() as u64
}

/// Relies on `rustc_apfloat::ieee::Double`'s `Rem`, which is C `fmod`.
#[verifier::external_body]
pub(crate) fn fp_rem(a: u64, b: u64) -> (r: u64)
    ensures
        r == fp_remainder(a, b),
{
    (Double::from_bits(a as u128) % Double::from_bits(b as u128)).value.to_bits() as u64
}

/// Relies on `rustc_apfloat::Float::from_i128`: the double nearest to the
/// integer, a function of the integer alone.
#[verifier::external_body]
pub(crate) fn fp_from_int(i: i64) -> (r: u64)
    ensures
        r == fp_of_int(i),
{
    Double::from_i128(i as i128).value.to_bits() as u64
}

/// Relies on `rustc_apfloat::ieee::Double`'s `FromStr`, whose decimal form is
/// `dddd.dddd[eE][+-]ddd` with the dot and exponent optional: text that is
/// nothing but digits with at most one dot always parses.
#[verifier::external_body]
pub(crate) fn fp_parse(s: &str) -> (r: Option<u64>)
    ensures
        r == fp_of_dec(s@),
        decimal_shape(s@) ==> r is Some,
{
    match s.parse::<Double>() {
        Ok(d) => Some(d.to_bits() as u64),
        Err(_) => None,
    }
}

/// Relies on `rustc_apfloat::ieee::Double`'s `Display`: the decimal rendering
/// is a function of the bit pattern alone.
#[verifier::external_body]
pub(crate) fn fp_render(b: u64) -> (r: String)
    ensures
        r@ == fp_dec(b),
{
    Double::from_bits(b as u128).to_string()
}

/// Relies on `rustc_apfloat::ieee::Double`'s `PartialEq`: IEEE equality,
/// false whenever an operand is NaN.
#[verifier::external_body]
pub(crate) fn fp_is_eq(a: u64, b: u64) -> (r: bool)
    ensures
        r == fp_eq(a, b),
        r == fp_eq(b, a),
{
    Double::from_bits(a as u128) == Double::from_bits(b as u128)
}

/// Relies on `rustc_apfloat::ieee::Double`'s `PartialOrd`: IEEE less-than,
/// false whenever an operand is NaN, and asymmetric.
#[verifier::external_body]
pub(crate) fn fp_is_lt(a: u64, b: u64) -> (r: bool)
    ensures
        r == fp_lt(a, b),
        r ==> !fp_lt(b, a),
{
    Double::from_bits(a as u128) < Double::from_bits(b as u128)
}

} // verus!
