//! Binary64 floating-point values carried by their bit patterns.
//!
//! The library never computes with floating-point numbers: it carries them
//! and applies the range rules below, which are stated on the IEEE-754
//! bit pattern (sign bit, then exponent and fraction). For a non-NaN value,
//! the numeric order of values of one sign is the integer order of their
//! magnitude bits, so a range check is an integer comparison.

use vstd::prelude::*;

verus! {

/// An IEEE-754 binary64 value, by its bit pattern (`f64::to_bits`).
#[derive(Debug, Clone, Copy, PartialEq, Eq, Structural)]
pub struct Float64 {
    pub bits: u64,
}

/// The sign bit.
pub const SIGN_BIT: u64 = 0x8000_0000_0000_0000;

/// Bit pattern of `+infinity`: every finite non-negative value has a
/// smaller pattern, every NaN with a clear sign bit a larger one.
pub const POSITIVE_INFINITY_BITS: u64 = 0x7FF0_0000_0000_0000;

/// Bit pattern of `150.0`.
pub const BITS_150: u64 = 0x4062_C000_0000_0000;

/// Bit pattern of `40.0`.
pub const BITS_40: u64 = 0x4044_0000_0000_0000;

/// `-40.0 <= v && v <= 150.0` for the value `v` with pattern `bits`: a
/// clear sign bit and a pattern at most that of `150.0`, or a set sign bit
/// and a magnitude at most that of `40.0`. NaN and the infinities are
/// outside.
pub open spec fn temperature_in_range(bits: u64) -> bool {
    ||| bits < SIGN_BIT && bits <= BITS_150
    ||| bits >= SIGN_BIT && bits - SIGN_BIT <= BITS_40
}

/// `v.is_finite() && !(v < 0.0)` for the value `v` with pattern `bits`:
/// a finite value with a clear sign bit, or negative zero.
pub open spec fn finite_non_negative(bits: u64) -> bool {
    bits < POSITIVE_INFINITY_BITS || bits == SIGN_BIT
}

impl Float64 {
    /// Whether the value lies within `-40.0..=150.0` degrees.
    pub fn is_plausible_temperature(self) -> (r: bool)
        ensures
            r == temperature_in_range(self.bits),
    {
        if self.bits < SIGN_BIT {
            self.bits <= BITS_150
        } else {
            self.bits - SIGN_BIT <= BITS_40
        }
    }

    /// Whether the value is finite and not below zero.
    pub fn is_finite_non_negative(self) -> (r: bool)
        ensures
            r == finite_non_negative(self.bits),
    {
        self.bits < POSITIVE_INFINITY_BITS || self.bits == SIGN_BIT
    }
}

} // verus!
