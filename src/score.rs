//! Order keys for confidence scores.
//!
//! A confidence arrives as the 32 bits of an IEEE-754 single-precision number. Its
//! order key flips the sign bit of a non-negative number and all bits of a negative
//! one, and gives `-0.0` the key of `+0.0`. Comparing the keys of two numbers that
//! are not NaN as unsigned integers then compares the numbers themselves. NaNs get
//! keys at either end, which `is_nan_key` recognizes; decoding compares and sorts
//! keys only, and never selects a NaN.

use vstd::prelude::*;

verus! {

const SIGN_BIT: u32 = 0x8000_0000;

/// The order key of the number whose bits are `bits`.
pub open spec fn key_of_bits(bits: u32) -> u32 {
    if bits == 0x8000_0000 {
        0x8000_0000
    } else if bits > 0x8000_0000 {
        (0xffff_ffffu32 - bits) as u32
    } else {
        (bits + 0x8000_0000) as u32
    }
}

/// The bits stand for a NaN: all exponent bits set and a non-zero fraction.
pub open spec fn is_nan_bits(bits: u32) -> bool {
    let magnitude = if bits >= 0x8000_0000 {
        bits - 0x8000_0000
    } else {
        bits as int
    };
    magnitude > 0x7f80_0000
}

/// The key is the key of a NaN.
pub open spec fn key_is_nan(key: u32) -> bool {
    key > 0xff80_0000 || key < 0x007f_ffff
}

/// The bits stand for `+0.0` or `-0.0`.
pub open spec fn is_zero_bits(bits: u32) -> bool {
    bits == 0 || bits == 0x8000_0000
}

/// The order of the numbers that two bit patterns stand for, neither a NaN:
/// negatives below positives, larger magnitudes further from zero, `-0.0` equal to
/// `+0.0`.
pub open spec fn float_lt(a: u32, b: u32) -> bool {
    let a_neg = a >= 0x8000_0000;
    let b_neg = b >= 0x8000_0000;
    if is_zero_bits(a) && is_zero_bits(b) {
        false
    } else if a_neg && !b_neg {
        true
    } else if !a_neg && b_neg {
        false
    } else if a_neg {
        a > b
    } else {
        a < b
    }
}

/// The order key of the number whose bits are `bits`.
pub fn score_key(bits: u32) -> (r: u32)
    ensures
        r == key_of_bits(bits),
{
    if bits == SIGN_BIT {
        SIGN_BIT
    } else if bits > SIGN_BIT {
        u32::MAX - bits
    } else {
        bits + SIGN_BIT
    }
}

/// The bits of the number whose order key is `key`; `+0.0` for the key of zero. The
/// one value that is no number's key gives the bits of `-0.0`.
pub fn score_bits(key: u32) -> (r: u32)
    ensures
        key != 0x7fff_ffff ==> key_of_bits(r) == key,
        key == 0x7fff_ffff ==> r == 0x8000_0000,
{
    if key >= SIGN_BIT {
        key - SIGN_BIT
    } else {
        u32::MAX - key
    }
}

/// Whether a key is the key of a NaN.
pub fn is_nan_key(key: u32) -> (r: bool)
    ensures
        r == key_is_nan(key),
{
    key > 0xff80_0000 || key < 0x007f_ffff
}

/// Keys tell NaNs apart, and for numbers that are not NaN comparing keys compares
/// the numbers, with `-0.0` equal to `+0.0`.
pub proof fn score_keys_follow_float_order(a: u32, b: u32)
    ensures
        key_is_nan(key_of_bits(a)) <==> is_nan_bits(a),
        !is_nan_bits(a) && !is_nan_bits(b) ==> (key_of_bits(a) < key_of_bits(b) <==> float_lt(a, b)),
        !is_nan_bits(a) && !is_nan_bits(b) ==> (key_of_bits(a) == key_of_bits(b) <==> (a == b || (
        is_zero_bits(a) && is_zero_bits(b)))),
{
}

} // verus!
