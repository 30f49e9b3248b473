//! The language's numbers are IEEE-754 double-precision values, carried
//! everywhere as their 64-bit pattern.  Everything the evaluator needs from
//! floating-point arithmetic is reached through the trusted wrappers below;
//! each result is named by an uninterpreted spec function of the operands'
//! bit patterns, so contracts elsewhere can speak of the results exactly.
use vstd::prelude::*;
use rustc_apfloat::Float;

verus! {

/// What the decimal text of a number token converts to: `None` where the
/// text is malformed, otherwise the bit pattern of the nearest double.
pub uninterp spec fn num_of_text(s: Seq<char>) -> Option<u64>;

pub uninterp spec fn num_add(a: u64, b: u64) -> u64;

pub uninterp spec fn num_sub(a: u64, b: u64) -> u64;

pub uninterp spec fn num_mul(a: u64, b: u64) -> u64;

pub uninterp spec fn num_div(a: u64, b: u64) -> u64;

pub uninterp spec fn num_rem(a: u64, b: u64) -> u64;

pub uninterp spec fn num_pow(a: u64, b: u64) -> u64;

pub uninterp spec fn num_eq(a: u64, b: u64) -> bool;

/// Whether the double with bit pattern `a` has fractional part zero.
pub uninterp spec fn num_is_whole(a: u64) -> bool;

/// The double with bit pattern `a`, truncated towards zero to an integer.
pub uninterp spec fn int_of_num(a: u64) -> i64;

/// The bit pattern of the double nearest to the integer `n`.
pub uninterp spec fn num_of_int(n: i64) -> u64;

/// The decimal rendering of the double with bit pattern `a`.
pub uninterp spec fn text_of_num(a: u64) -> Seq<char>;

/// Relies on rustc_apfloat's decimal-to-double conversion, rounding to
/// nearest even: the same conversion rustc applies to its own floating-point
/// literals.  Malformed text is reported as `None`.
#[verifier::external_body]
pub(crate) fn bits_of_decimal(s: &str) -> (r: Option<u64>)
    ensures
        r == num_of_text(s@),
{
    match s.parse::<rustc_apfloat::ieee::Double>() {
        Ok(d) => Some(d.to_bits() as u64),
        Err(_) => None,
    }
}

/// Relies on rustc_apfloat's IEEE double addition, rounding to nearest even.
#[verifier::external_body]
pub(crate) fn add_bits(a: u64, b: u64) -> (r: u64)
    ensures
        r == num_add(a, b),
{
    let x = rustc_apfloat::ieee::Double::from_bits(a as u128);
    let y = rustc_apfloat::ieee::Double::from_bits(b as u128);
    (x + y).value.to_bits() as u64
}

/// Relies on rustc_apfloat's IEEE double subtraction, rounding to nearest even.
#[verifier::external_body]
pub(crate) fn sub_bits(a: u64, b: u64) -> (r: u64)
    ensures
        r == num_sub(a, b),
{
    let x = rustc_apfloat::ieee::Double::from_bits(a as u128);
    let y = rustc_apfloat::ieee::Double::from_bits(b as u128);
    (x - y).value.to_bits() as u64
}

/// Relies on rustc_apfloat's IEEE double multiplication, rounding to nearest even.
#[verifier::external_body]
pub(crate) fn mul_bits(a: u64, b: u64) -> (r: u64)
    ensures
        r == num_mul(a, b),
{
    let x = rustc_apfloat::ieee::Double::from_bits(a as u128);
    let y = rustc_apfloat::ieee::Double::from_bits(b as u128);
    (x * y).value.to_bits() as u64
}

/// Relies on rustc_apfloat's IEEE double division, rounding to nearest even.
#[verifier::external_body]
pub(crate) fn div_bits(a: u64, b: u64) -> (r: u64)
    ensures
        r == num_div(a, b),
{
    let x = rustc_apfloat::ieee::Double::from_bits(a as u128);
    let y = rustc_apfloat::ieee::Double::from_bits(b as u128);
    (x / y).value.to_bits() as u64
}

/// Relies on rustc_apfloat's `c_fmod`, the remainder with the dividend's
/// sign that the `%` operator computes on doubles.
#[verifier::external_body]
pub(crate) fn rem_bits(a: u64, b: u64) -> (r: u64)
    ensures
        r == num_rem(a, b),
{
    let x = rustc_apfloat::ieee::Double::from_bits(a as u128);
    let y = rustc_apfloat::ieee::Double::from_bits(b as u128);
    (x % y).value.to_bits() as u64
}

/// Relies on libm's `pow`, the double-precision power function.
#[verifier::external_body]
pub(crate) fn pow_bits(a: u64, b: u64) -> (r: u64)
    ensures
        r == num_pow(a, b),
{
    bytemuck::cast(libm::pow(bytemuck::cast(a), bytemuck::cast(b)))
}

/// Relies on rustc_apfloat's IEEE comparison: the two zeros compare equal,
/// and a NaN compares equal to nothing.
#[verifier::external_body]
pub(crate) fn eq_bits(a: u64, b: u64) -> (r: bool)
    ensures
        r == num_eq(a, b),
{
    let x = rustc_apfloat::ieee::Double::from_bits(a as u128);
    let y = rustc_apfloat::ieee::Double::from_bits(b as u128);
    x == y
}

/// Relies on libm's `trunc` (with `copysign` as an identity to view the bit
/// pattern as a double) to evaluate std's `fract() == 0` test for a whole
/// number.
#[verifier::external_body]
pub(crate) fn whole_bits(a: u64) -> (r: bool)
    ensures
        r == num_is_whole(a),
{
    let x = libm::copysign(bytemuck::cast(a), bytemuck::cast(a));
    (x - libm::trunc(x)) == bytemuck::cast(0u64)
}

/// Relies on Rust's saturating double-to-integer cast (with libm's
/// `copysign` as an identity to view the bit pattern as a double).
#[verifier::external_body]
pub(crate) fn int_bits(a: u64) -> (r: i64)
    ensures
        r == int_of_num(a),
{
    let x = libm::copysign(bytemuck::cast(a), bytemuck::cast(a));
    x as i64
}

/// Relies on rustc_apfloat's integer-to-double conversion, rounding to
/// nearest even.
#[verifier::external_body]
pub(crate) fn bits_of_int(n: i64) -> (r: u64)
    ensures
        r == num_of_int(n),
{
    rustc_apfloat::ieee::Double::from_i128(n as i128).value.to_bits() as u64
}

/// Relies on std's `Display` for doubles (with libm's `copysign` as an
/// identity to view the bit pattern as a double).
#[verifier::external_body]
pub(crate) fn text_bits(a: u64) -> (r: String)
    ensures
        r@ == text_of_num(a),
{
    let x = libm::copysign(bytemuck::cast(a), bytemuck::cast(a));
    x.to_string()
}

} // verus!
