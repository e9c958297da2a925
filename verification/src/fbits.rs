//! IEEE 754 binary64 arithmetic on raw bit patterns.
//!
//! A runtime `Float` value carries its IEEE 754 binary64 bit pattern in a
//! `u64`. The arithmetic itself is delegated to the `rustc_apfloat`
//! software floating-point library (round to nearest, ties to even, the
//! default rounding mode); each operation's result is named by an
//! uninterpreted spec function of the operand bit patterns alone, which is
//! sound because these operations are deterministic functions of their bits.

use vstd::prelude::*;

use rustc_apfloat::Float;
use rustc_apfloat::ieee::Double;

verus! {

/// The bit pattern of the binary64 sum `a + b`.
pub uninterp spec fn fadd_bits(a: u64, b: u64) -> u64;

/// The bit pattern of the binary64 difference `a - b`.
pub uninterp spec fn fsub_bits(a: u64, b: u64) -> u64;

/// The bit pattern of the binary64 product `a * b`.
pub uninterp spec fn fmul_bits(a: u64, b: u64) -> u64;

/// The bit pattern of the binary64 quotient `a / b`.
pub uninterp spec fn fdiv_bits(a: u64, b: u64) -> u64;

/// The bit pattern of the binary64 remainder `a % b` (C `fmod`).
pub uninterp spec fn frem_bits(a: u64, b: u64) -> u64;

/// The bit pattern of the binary64 negation `-a`.
pub uninterp spec fn fneg_bits(a: u64) -> u64;

/// Whether the binary64 value of `a` is strictly less than that of `b`.
pub uninterp spec fn flt_bits(a: u64, b: u64) -> bool;

/// Whether the binary64 value of `a` is less than or equal to that of `b`.
pub uninterp spec fn fle_bits(a: u64, b: u64) -> bool;

/// Whether the binary64 values of `a` and `b` compare equal under IEEE 754
/// equality (so NaN is unequal to everything and the two zeros are equal).
pub uninterp spec fn feq_bits(a: u64, b: u64) -> bool;

/// The bit pattern of the binary64 value nearest to the integer `i`.
pub uninterp spec fn fint_bits(i: i64) -> u64;

/// Relies on `rustc_apfloat::ieee::Double`'s `Add` impl: binary64 addition.
#[verifier::external_body]
pub(crate) fn add_bits(a: u64, b: u64) -> (r: u64)
    ensures
        r == fadd_bits(a, b),
{
    let x = Double::from_bits(a as u128);
    let y = Double::from_bits(b as u128);
    (x + y).value.to_bits() as u64
}

/// Relies on `rustc_apfloat::ieee::Double`'s `Sub` impl: binary64 subtraction.
#[verifier::external_body]
pub(crate) fn sub_bits(a: u64, b: u64) -> (r: u64)
    ensures
        r == fsub_bits(a, b),
{
    let x = Double::from_bits(a as u128);
    let y = Double::from_bits(b as u128);
    (x - y).value.to_bits() as u64
}

/// Relies on `rustc_apfloat::ieee::Double`'s `Mul` impl: binary64 multiplication.
#[verifier::external_body]
pub(crate) fn mul_bits(a: u64, b: u64) -> (r: u64)
    ensures
        r == fmul_bits(a, b),
{
    let x = Double::from_bits(a as u128);
    let y = Double::from_bits(b as u128);
    (x * y).value.to_bits() as u64
}

/// Relies on `rustc_apfloat::ieee::Double`'s `Div` impl: binary64 division,
/// with IEEE semantics for division by zero (infinity or NaN, not a fault).
#[verifier::external_body]
pub(crate) fn div_bits(a: u64, b: u64) -> (r: u64)
    ensures
        r == fdiv_bits(a, b),
{
    let x = Double::from_bits(a as u128);
    let y = Double::from_bits(b as u128);
    (x / y).value.to_bits() as u64
}

/// Relies on `rustc_apfloat::ieee::Double`'s `Rem` impl (`c_fmod`), the same
/// operation as `%` on hardware binary64 values.
#[verifier::external_body]
pub(crate) fn rem_bits(a: u64, b: u64) -> (r: u64)
    ensures
        r == frem_bits(a, b),
{
    let x = Double::from_bits(a as u128);
    let y = Double::from_bits(b as u128);
    (x % y).value.to_bits() as u64
}

/// Relies on `rustc_apfloat::ieee::Double`'s `Neg` impl: binary64 negation.
#[verifier::external_body]
pub(crate) fn neg_bits(a: u64) -> (r: u64)
    ensures
        r == fneg_bits(a),
{
    let x = Double::from_bits(a as u128);
    (-x).to_bits() as u64
}

/// Relies on `rustc_apfloat::ieee::Double`'s `PartialOrd::lt`: IEEE 754
/// ordered comparison, false whenever an operand is NaN.
#[verifier::external_body]
pub(crate) fn lt_bits(a: u64, b: u64) -> (r: bool)
    ensures
        r == flt_bits(a, b),
{
    let x = Double::from_bits(a as u128);
    let y = Double::from_bits(b as u128);
    x < y
}

/// Relies on `rustc_apfloat::ieee::Double`'s `PartialOrd::le`: IEEE 754
/// ordered comparison, false whenever an operand is NaN.
#[verifier::external_body]
pub(crate) fn le_bits(a: u64, b: u64) -> (r: bool)
    ensures
        r == fle_bits(a, b),
{
    let x = Double::from_bits(a as u128);
    let y = Double::from_bits(b as u128);
    x <= y
}

/// Relies on `rustc_apfloat::ieee::Double`'s `PartialEq::eq`: IEEE 754
/// equality, under which NaN equals nothing and the two zeros are equal.
#[verifier::external_body]
pub(crate) fn eq_bits(a: u64, b: u64) -> (r: bool)
    ensures
        r == feq_bits(a, b),
{
    let x = Double::from_bits(a as u128);
    let y = Double::from_bits(b as u128);
    x == y
}

/// Relies on `rustc_apfloat::Float::from_i128`: conversion of an integer to
/// the nearest binary64 value (ties to even).
#[verifier::external_body]
pub(crate) fn int_bits(i: i64) -> (r: u64)
    ensures
        r == fint_bits(i),
{
    Double::from_i128(i as i128).value.to_bits() as u64
}

} // verus!
