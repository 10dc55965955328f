//! IEEE 754 binary32 values, carried as raw bit patterns (`u32`).
//!
//! The library never computes with the values themselves: every arithmetic
//! result is obtained from `rustc_apfloat`'s software implementation of
//! IEEE 754 behind the trusted wrappers below, and is named by an
//! uninterpreted spec function, so contracts can speak of results exactly
//! without restating floating-point arithmetic.

use vstd::prelude::*;
use rustc_apfloat::Float;
use rustc_apfloat::ieee::Single;

verus! {

/// Bit pattern of `+0.0`.
pub const ZERO_BITS: u32 = 0x0000_0000;
/// Bit pattern of `-0.0`.
pub const NEG_ZERO_BITS: u32 = 0x8000_0000;
/// Bit pattern of `1.0`.
pub const ONE_BITS: u32 = 0x3F80_0000;
/// Bit pattern of `-1.0`.
pub const NEG_ONE_BITS: u32 = 0xBF80_0000;
/// Bit pattern of `2.0`.
pub const TWO_BITS: u32 = 0x4000_0000;

/// The sum, under IEEE 754 binary32 round-to-nearest-even, of the values
/// with bit patterns `a` and `b`, as a bit pattern.
pub uninterp spec fn add_bits(a: u32, b: u32) -> u32;

/// The difference `a - b`, as `add_bits`.
pub uninterp spec fn sub_bits(a: u32, b: u32) -> u32;

/// The product `a * b`, as `add_bits`.
pub uninterp spec fn mul_bits(a: u32, b: u32) -> u32;

/// Whether the value with bit pattern `a` compares strictly less than the
/// value with bit pattern `b` (false whenever either is a NaN).
pub uninterp spec fn lt_bits(a: u32, b: u32) -> bool;

/// Whether the value with bit pattern `a` compares less than or equal to the
/// value with bit pattern `b` (false whenever either is a NaN).
pub uninterp spec fn le_bits(a: u32, b: u32) -> bool;

/// The binary32 value nearest to the integer `k`, as a bit pattern.
pub uninterp spec fn of_u32_bits(k: u32) -> u32;

/// Whether a bit pattern encodes a finite value (exponent field not all ones).
pub open spec fn is_finite_bits(b: u32) -> bool {
    (b >> 23) & 0xFF != 0xFF
}

/// Whether a bit pattern encodes a strictly positive finite value: the sign
/// bit clear, not a zero, and below the exponent range of infinities and
/// NaNs (subnormals included).
pub open spec fn is_positive_finite_bits(b: u32) -> bool {
    0 < b < 0x7F80_0000
}

/// A positive finite pattern is in particular finite.
pub proof fn lemma_positive_finite_is_finite(b: u32)
    requires
        is_positive_finite_bits(b),
    ensures
        is_finite_bits(b),
{
    assert(b < 0x7F80_0000u32 ==> ((b >> 23) & 0xFF) != 0xFF) by (bit_vector);
}

/// Exec mirror of [`is_finite_bits`].
pub(crate) fn finite_bits(b: u32) -> (r: bool)
    ensures
        r == is_finite_bits(b),
{
    (b >> 23) & 0xFF != 0xFF
}

/// Relies on `rustc_apfloat::ieee::Single`: `+` is IEEE 754 binary32
/// addition, rounding to nearest-even, on the given bit patterns.
#[verifier::external_body]
pub(crate) fn add_single(a: u32, b: u32) -> (r: u32)
    ensures
        r == add_bits(a, b),
{
    let x = Single::from_bits(a as u128);
    let y = Single::from_bits(b as u128);
    (x + y).value.to_bits() as u32
}

/// Relies on `rustc_apfloat::ieee::Single`: `-` is IEEE 754 binary32
/// subtraction, rounding to nearest-even. The later clauses record two
/// plain identities: `1.0 - (-1.0) == 2.0` (operands and result exact in
/// binary32), and `x - 0.0 == x` for any positive finite `x` (subtracting
/// a positive zero is exact and changes nothing).
#[verifier::external_body]
pub(crate) fn sub_single(a: u32, b: u32) -> (r: u32)
    ensures
        r == sub_bits(a, b),
        a == ONE_BITS && b == NEG_ONE_BITS ==> r == TWO_BITS,
        is_positive_finite_bits(a) && b == ZERO_BITS ==> r == a,
{
    let x = Single::from_bits(a as u128);
    let y = Single::from_bits(b as u128);
    (x - y).value.to_bits() as u32
}

/// Relies on `rustc_apfloat::ieee::Single`: `*` is IEEE 754 binary32
/// multiplication, rounding to nearest-even.
#[verifier::external_body]
pub(crate) fn mul_single(a: u32, b: u32) -> (r: u32)
    ensures
        r == mul_bits(a, b),
{
    let x = Single::from_bits(a as u128);
    let y = Single::from_bits(b as u128);
    (x * y).value.to_bits() as u32
}

/// Relies on `rustc_apfloat::ieee::Single`: `<` is the IEEE 754 ordered
/// comparison (false on NaN). The second clause records the plain fact that
/// zero compares strictly below every positive finite value.
#[verifier::external_body]
pub(crate) fn lt_single(a: u32, b: u32) -> (r: bool)
    ensures
        r == lt_bits(a, b),
        a == ZERO_BITS && is_positive_finite_bits(b) ==> r,
{
    Single::from_bits(a as u128) < Single::from_bits(b as u128)
}

/// Relies on `rustc_apfloat::ieee::Single`: `<=` is the IEEE 754 ordered
/// comparison (false on NaN). The later clauses record three plain facts:
/// `-1.0 <= 1.0`; zero compares at or below every positive finite value;
/// and no positive finite value compares at or below zero.
#[verifier::external_body]
pub(crate) fn le_single(a: u32, b: u32) -> (r: bool)
    ensures
        r == le_bits(a, b),
        a == NEG_ONE_BITS && b == ONE_BITS ==> r,
        a == ZERO_BITS && is_positive_finite_bits(b) ==> r,
        is_positive_finite_bits(a) && b == ZERO_BITS ==> !r,
{
    Single::from_bits(a as u128) <= Single::from_bits(b as u128)
}

/// Relies on `rustc_apfloat::ieee::Single`: conversion from an unsigned
/// integer to the nearest binary32 value.
#[verifier::external_body]
pub(crate) fn single_of_u32(k: u32) -> (r: u32)
    ensures
        r == of_u32_bits(k),
{
    Single::from_u128(k as u128).value.to_bits() as u32
}

} // verus!
