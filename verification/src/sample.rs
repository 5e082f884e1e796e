//! The sample domain.
//!
//! A sample is the 64-bit pattern of an IEEE 754 binary64 value. Holding
//! samples as bit patterns keeps the buffer logic fully checkable; the
//! arithmetic on the encoded values is done by `rustc_apfloat`, a software
//! implementation of IEEE 754 binary64 (round to nearest, ties to even,
//! like the hardware default), behind the trusted functions below. Each
//! arithmetic result is named by an uninterpreted spec function: the named
//! result depends on the argument bit patterns alone. The two operations
//! the encoding states outright — the magnitude, and equality with zero,
//! both a matter of the sign bit — are defined and verified, not trusted.

use vstd::prelude::*;

use rustc_apfloat::Float;
use rustc_apfloat::ieee::Double;

verus! {

/// The sum of the two encoded values, as a bit pattern.
pub uninterp spec fn add_bits(a: u64, b: u64) -> u64;

/// The difference of the two encoded values, as a bit pattern.
pub uninterp spec fn sub_bits(a: u64, b: u64) -> u64;

/// The product of the two encoded values, as a bit pattern.
pub uninterp spec fn mul_bits(a: u64, b: u64) -> u64;

/// The quotient of the two encoded values, as a bit pattern.
pub uninterp spec fn div_bits(a: u64, b: u64) -> u64;

/// The remainder (C `fmod`, the `%` of Rust floats) of the two encoded
/// values, as a bit pattern.
pub uninterp spec fn rem_bits(a: u64, b: u64) -> u64;

/// The magnitude of the encoded value: the bit pattern with its sign bit
/// cleared, which is how the absolute value of a binary64 is defined.
pub open spec fn abs_sample(a: u64) -> u64 {
    a & 0x7fff_ffff_ffff_ffff
}

/// Whether the encoded value compares equal to zero: a zero of either
/// sign, so everything but the sign bit is clear.
pub open spec fn is_zero_sample(a: u64) -> bool {
    a & 0x7fff_ffff_ffff_ffff == 0
}

/// Whether the first encoded value is ordered strictly below the second.
pub uninterp spec fn lt_bits(a: u64, b: u64) -> bool;

/// Whether the first encoded value is ordered strictly above the second.
pub uninterp spec fn gt_bits(a: u64, b: u64) -> bool;

/// The binary64 value nearest to the integer `n`, as a bit pattern.
pub uninterp spec fn uint_bits(n: usize) -> u64;

/// The encoded value converted to a byte: rounded toward zero, clamped to
/// the byte range, with zero for a non-number.
pub uninterp spec fn byte_bits(a: u64) -> u8;

/// Relies on `rustc_apfloat::ieee::Double`'s `Add` (IEEE binary64 addition,
/// round to nearest, ties to even).
#[verifier::external_body]
pub(crate) fn sample_add(a: u64, b: u64) -> (r: u64)
    ensures
        r == add_bits(a, b),
{
    let x = Double::from_bits(a as u128);
    let y = Double::from_bits(b as u128);
    (x + y).value.to_bits() as u64
}

/// Relies on `rustc_apfloat::ieee::Double`'s `Sub` (IEEE binary64
/// subtraction, round to nearest, ties to even).
#[verifier::external_body]
pub(crate) fn sample_sub(a: u64, b: u64) -> (r: u64)
    ensures
        r == sub_bits(a, b),
{
    let x = Double::from_bits(a as u128);
    let y = Double::from_bits(b as u128);
    (x - y).value.to_bits() as u64
}

/// Relies on `rustc_apfloat::ieee::Double`'s `Mul` (IEEE binary64
/// multiplication, round to nearest, ties to even).
#[verifier::external_body]
pub(crate) fn sample_mul(a: u64, b: u64) -> (r: u64)
    ensures
        r == mul_bits(a, b),
{
    let x = Double::from_bits(a as u128);
    let y = Double::from_bits(b as u128);
    (x * y).value.to_bits() as u64
}

/// Relies on `rustc_apfloat::ieee::Double`'s `Div` (IEEE binary64 division,
/// round to nearest, ties to even).
#[verifier::external_body]
pub(crate) fn sample_div(a: u64, b: u64) -> (r: u64)
    ensures
        r == div_bits(a, b),
{
    let x = Double::from_bits(a as u128);
    let y = Double::from_bits(b as u128);
    (x / y).value.to_bits() as u64
}

/// Relies on `rustc_apfloat::ieee::Double`'s `Rem` (`c_fmod`, the semantics
/// of `%` on Rust floats).
#[verifier::external_body]
pub(crate) fn sample_rem(a: u64, b: u64) -> (r: u64)
    ensures
        r == rem_bits(a, b),
{
    let x = Double::from_bits(a as u128);
    let y = Double::from_bits(b as u128);
    (x % y).value.to_bits() as u64
}

/// Clears the sign bit: the encoded magnitude.
pub(crate) fn sample_abs(a: u64) -> (r: u64)
    ensures
        r == abs_sample(a),
{
    a & 0x7fff_ffff_ffff_ffff
}

/// Relies on `rustc_apfloat::ieee::Double`'s `PartialOrd` (the IEEE order:
/// a non-number compares below or above nothing).
#[verifier::external_body]
pub(crate) fn sample_lt(a: u64, b: u64) -> (r: bool)
    ensures
        r == lt_bits(a, b),
{
    let x = Double::from_bits(a as u128);
    let y = Double::from_bits(b as u128);
    x < y
}

/// Relies on `rustc_apfloat::ieee::Double`'s `PartialOrd` (the IEEE order:
/// a non-number compares below or above nothing).
#[verifier::external_body]
pub(crate) fn sample_gt(a: u64, b: u64) -> (r: bool)
    ensures
        r == gt_bits(a, b),
{
    let x = Double::from_bits(a as u128);
    let y = Double::from_bits(b as u128);
    x > y
}

/// Tests everything but the sign bit, deciding equality with zero.
pub(crate) fn sample_is_zero(a: u64) -> (r: bool)
    ensures
        r == is_zero_sample(a),
{
    a & 0x7fff_ffff_ffff_ffff == 0
}

/// Relies on `rustc_apfloat::Float::from_u128` (integer to binary64, round
/// to nearest, ties to even — the rounding of an `as f64` cast).
#[verifier::external_body]
pub(crate) fn sample_uint(n: usize) -> (r: u64)
    ensures
        r == uint_bits(n),
{
    let x = rustc_apfloat::ieee::Double::from_u128(n as u128).value;
    rustc_apfloat::Float::to_bits(x) as u64
}

/// Relies on `rustc_apfloat::Float::to_u128` with width 8: round toward
/// zero, clamped to the byte range, zero for a non-number — the semantics
/// of an `as u8` cast on a float.
#[verifier::external_body]
pub(crate) fn sample_byte(a: u64) -> (r: u8)
    ensures
        r == byte_bits(a),
{
    let x = Double::from_bits(a as u128);
    x.to_u128(8).value as u8
}

} // verus!
