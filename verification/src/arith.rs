//! The four IEEE-754 binary64 arithmetic operations on bit patterns.
//!
//! A value of the interpolation domain is a binary64 number carried as its
//! 64-bit representation. Each operation rounds to nearest, ties to even,
//! and its result is a pure function of the two operand bit patterns; the
//! spec functions below name those results, and the rest of the crate
//! reasons about sums and products only through these names.

use vstd::prelude::*;
use rustc_apfloat::Float;

verus! {

pub uninterp spec fn add_bits_of(a: u64, b: u64) -> u64;

pub uninterp spec fn sub_bits_of(a: u64, b: u64) -> u64;

pub uninterp spec fn mul_bits_of(a: u64, b: u64) -> u64;

pub uninterp spec fn div_bits_of(a: u64, b: u64) -> u64;

/// Relies on rustc_apfloat::ieee::Double's Add impl: IEEE-754 binary64
/// addition, rounded to nearest (ties to even); the result's bit pattern
/// depends on the operand bit patterns alone.
#[verifier::external_body]
pub(crate) fn add_bits(a: u64, b: u64) -> (r: u64)
    ensures
        r == add_bits_of(a, b),
{
    let x = rustc_apfloat::ieee::Double::from_bits(a as u128);
    let y = rustc_apfloat::ieee::Double::from_bits(b as u128);
    (x + y).value.to_bits() as u64
}

/// Relies on rustc_apfloat::ieee::Double's Sub impl: IEEE-754 binary64
/// subtraction, rounded to nearest (ties to even); the result's bit pattern
/// depends on the operand bit patterns alone.
#[verifier::external_body]
pub(crate) fn sub_bits(a: u64, b: u64) -> (r: u64)
    ensures
        r == sub_bits_of(a, b),
{
    let x = rustc_apfloat::ieee::Double::from_bits(a as u128);
    let y = rustc_apfloat::ieee::Double::from_bits(b as u128);
    (x - y).value.to_bits() as u64
}

/// Relies on rustc_apfloat::ieee::Double's Mul impl: IEEE-754 binary64
/// multiplication, rounded to nearest (ties to even); the result's bit
/// pattern depends on the operand bit patterns alone.
#[verifier::external_body]
pub(crate) fn mul_bits(a: u64, b: u64) -> (r: u64)
    ensures
        r == mul_bits_of(a, b),
{
    let x = rustc_apfloat::ieee::Double::from_bits(a as u128);
    let y = rustc_apfloat::ieee::Double::from_bits(b as u128);
    (x * y).value.to_bits() as u64
}

/// Relies on rustc_apfloat::ieee::Double's Div impl: IEEE-754 binary64
/// division, rounded to nearest (ties to even); the result's bit pattern
/// depends on the operand bit patterns alone.
#[verifier::external_body]
pub(crate) fn div_bits(a: u64, b: u64) -> (r: u64)
    ensures
        r == div_bits_of(a, b),
{
    let x = rustc_apfloat::ieee::Double::from_bits(a as u128);
    let y = rustc_apfloat::ieee::Double::from_bits(b as u128);
    (x / y).value.to_bits() as u64
}

} // verus!
