//! The caller-supplied source of randomness, and the samplers that turn its
//! raw words into coin flips, Bernoulli draws and uniform binary32 values.
//!
//! Every stochastic operation of the library draws exclusively from a
//! [`RandomSource`], so determinism stays under the caller's control: with a
//! seeded generator the whole evolution is reproducible. The samplers below
//! consume the same words, in the same order, and apply the same fixed-point
//! and binary32 arithmetic as the widely used `rand` crate (version 0.9), so
//! a generator that implements both interfaces yields identical streams.

use vstd::prelude::*;

verus! {

use crate::single::{
    add_bits, mul_bits, sub_bits, le_bits, of_u32_bits, is_finite_bits,
    add_single, mul_single, sub_single, le_single, single_of_u32, finite_bits,
    ZERO_BITS, NEG_ZERO_BITS, ONE_BITS,
};

/// An injectable stream of uniformly random words.
///
/// The library never seeds or owns a generator; callers hand one in and may
/// seed it for reproducibility. Implementations must return independently
/// and uniformly distributed words on each call.
pub trait RandomSource {
    /// The next uniformly random 32-bit word.
    fn next_u32(&mut self) -> u32;

    /// The next uniformly random 64-bit word.
    fn next_u64(&mut self) -> u64;
}

/// Threshold of a fair coin: `floor(0.5 * 2^64)`.
pub const HALF_THRESHOLD: u64 = 0x8000_0000_0000_0000;

/// Bit pattern of `2^-24`, the scale that maps a 24-bit word to `[0, 1)`.
pub const UNIT_SCALE_BITS: u32 = 0x3380_0000;

/// A fair coin flip: one 64-bit draw compared against one half in 64-bit
/// fixed point, exactly a Bernoulli draw with probability 1/2.
pub(crate) fn coin<R: RandomSource>(rng: &mut R) -> bool {
    rng.next_u64() < HALF_THRESHOLD
}

/// `floor(p * 2^64)`, where `p` is the value of the binary32 bit pattern
/// `bits`, assumed to lie in `[0, 1)`: the 64-bit fixed-point threshold of a
/// Bernoulli draw with probability `p`.
pub open spec fn bernoulli_threshold(bits: u32) -> u64 {
    let e = (bits >> 23) & 0xFF;
    let m = (bits & 0x7F_FFFF) as u64;
    if e == 0 {
        // zero or subnormal: p < 2^-126, so the threshold floors to zero
        0u64
    } else if e >= 86 {
        ((m + 0x80_0000) as u64) << ((e - 86) as u64)
    } else if e >= 63 {
        ((m + 0x80_0000) as u64) >> ((86 - e) as u64)
    } else {
        // p < 2^-63: fewer than one part in 2^64 after the 24-bit significand
        0u64
    }
}

/// Whether a bit pattern encodes a probability: a value in `[0.0, 1.0]`.
/// For non-negative patterns the bit ordering is the value ordering, so this
/// is a plain comparison; the only admissible negative pattern is `-0.0`.
pub open spec fn is_probability_bits(bits: u32) -> bool {
    bits == NEG_ZERO_BITS || bits <= ONE_BITS
}

/// A Bernoulli draw: true with the probability encoded by `chance`.
///
/// For certainty (`chance == 1.0`) no word is consumed; otherwise one 64-bit
/// word is drawn and compared against the fixed-point threshold.
pub(crate) fn bernoulli<R: RandomSource>(rng: &mut R, chance: u32) -> (r: bool)
    requires
        is_probability_bits(chance),
    ensures
        chance == ONE_BITS ==> r,
        chance == ZERO_BITS || chance == NEG_ZERO_BITS ==> !r,
{
    if chance == ONE_BITS {
        return true;
    }
    assert((chance == 0x8000_0000u32 || chance <= 0x3F7F_FFFFu32) ==> ((chance >> 23) & 0xFF) < 127)
        by (bit_vector);
    let t = bernoulli_draw_threshold(chance);
    let v = rng.next_u64();
    v < t
}

/// Exec mirror of [`bernoulli_threshold`], for probabilities below one.
fn bernoulli_draw_threshold(bits: u32) -> (t: u64)
    requires
        is_probability_bits(bits),
        bits != ONE_BITS,
    ensures
        t == bernoulli_threshold(bits),
        bits == ZERO_BITS || bits == NEG_ZERO_BITS ==> t == 0,
{
    let e = (bits >> 23) & 0xFF;
    let m = (bits & 0x7F_FFFF) as u64;
    assert((bits == 0x8000_0000u32 || bits <= 0x3F7F_FFFFu32) ==> ((bits >> 23) & 0xFF) < 127)
        by (bit_vector);
    assert((bits & 0x7F_FFFF) < 0x80_0000u32) by (bit_vector);
    assert(bits == 0u32 || bits == 0x8000_0000u32 ==> ((bits >> 23) & 0xFF) == 0) by (bit_vector);
    if e == 0 {
        0
    } else if e >= 86 {
        (m + 0x80_0000) << ((e - 86) as u64)
    } else if e >= 63 {
        (m + 0x80_0000) >> ((86 - e) as u64)
    } else {
        0
    }
}

/// A uniform draw from `[0, 1)`: the bit pattern of `2^-24 * k` for a 24-bit
/// word `k`, the multiplicative conversion of one 32-bit draw.
pub(crate) fn sample_unit<R: RandomSource>(rng: &mut R) -> (r: u32)
    ensures
        exists|k: u32| k < 0x100_0000 && r == mul_bits(UNIT_SCALE_BITS, of_u32_bits(k)),
{
    let w = rng.next_u32();
    let k = w >> 8;
    assert(w >> 8 < 0x100_0000u32) by (bit_vector);
    let r = mul_single(UNIT_SCALE_BITS, single_of_u32(k));
    assert(k < 0x100_0000 && r == mul_bits(UNIT_SCALE_BITS, of_u32_bits(k)));
    r
}

/// The bit pattern `(w >> 9) | ONE_BITS`: a value in `[1, 2)` built by
/// grafting 23 random significand bits onto the exponent of one.
pub open spec fn one_to_two_bits(w: u32) -> u32 {
    (w >> 9) | 0x3F80_0000
}

/// The uniform sample drawn from word `w` for a range starting at `low` with
/// width `scale`: `(value - 1.0) * scale + low`, where `value` is in `[1, 2)`.
pub open spec fn range_sample_bits(low: u32, scale: u32, w: u32) -> u32 {
    add_bits(mul_bits(sub_bits(one_to_two_bits(w), ONE_BITS), scale), low)
}

/// Whether a closed range `[low, high]` admits uniform sampling: both bounds
/// and their difference finite, and the bounds ordered.
pub open spec fn range_ok(low: u32, high: u32) -> bool {
    is_finite_bits(low) && is_finite_bits(high) && le_bits(low, high)
        && is_finite_bits(sub_bits(high, low))
}

/// A uniform draw from the closed range `[low, high]` of binary32 values:
/// one 32-bit word mapped to `[1, 2)`, shifted to `[0, 1)`, then scaled by
/// `high - low` and translated. Returns `None`, consuming nothing, when the
/// bounds are unordered or not finitely separated.
pub(crate) fn sample_in_range<R: RandomSource>(rng: &mut R, low: u32, high: u32) -> (r: Option<
    u32,
>)
    ensures
        r is Some <==> range_ok(low, high),
        r matches Some(v) ==> exists|w: u32| v == range_sample_bits(low, sub_bits(high, low), w),
{
    if !finite_bits(low) || !finite_bits(high) {
        return None;
    }
    if !le_single(low, high) {
        return None;
    }
    let scale = sub_single(high, low);
    if !finite_bits(scale) {
        return None;
    }
    let w = rng.next_u32();
    let value = (w >> 9) | 0x3F80_0000;
    let r = add_single(mul_single(sub_single(value, ONE_BITS), scale), low);
    assert(r == range_sample_bits(low, sub_bits(high, low), w));
    Some(r)
}

} // verus!
