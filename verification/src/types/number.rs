//! Numbers, held without floating point.
//!
//! A number is an IEEE 754 binary64 value. This library does no
//! floating-point arithmetic: it holds a number by its bit pattern, together
//! with the decimal text that whoever made the number wrote for it, and reads
//! from the bit pattern what can be read with integers: sign, zero, NaN,
//! equality and order.

use vstd::prelude::*;
use crate::types::boolean::Boolean;

verus! {

/// The sign bit.
pub const SIGN: u64 = 0x8000_0000_0000_0000;

/// The bit pattern of positive infinity. Greater magnitudes are NaN.
pub const INFINITY: u64 = 0x7ff0_0000_0000_0000;

/// The bit pattern of 1.
pub const ONE: u64 = 0x3ff0_0000_0000_0000;

/// The bit pattern of 0.5.
pub const HALF: u64 = 0x3fe0_0000_0000_0000;

/// The bit pattern of 0.
pub const ZERO: u64 = 0;

/// Whether the sign bit is set.
pub open spec fn sign_negative(bits: u64) -> bool {
    bits >= SIGN
}

/// The bit pattern without its sign bit.
pub open spec fn magnitude(bits: u64) -> u64 {
    if bits >= SIGN {
        (bits - SIGN) as u64
    } else {
        bits
    }
}

/// Whether the bit pattern is not a number.
pub open spec fn is_nan(bits: u64) -> bool {
    magnitude(bits) > INFINITY
}

/// Whether the bit pattern is zero, of either sign.
pub open spec fn is_zero(bits: u64) -> bool {
    magnitude(bits) == 0
}

/// An integer that orders the numbers as binary64 does: of two bit patterns
/// that are not NaN, the one with the smaller key is the smaller number, and
/// equal keys are equal numbers (both zeros have key 0).
pub open spec fn key(bits: u64) -> int {
    if sign_negative(bits) {
        -(magnitude(bits) as int)
    } else {
        magnitude(bits) as int
    }
}

/// Equality of numbers: NaN equals nothing, the two zeros are equal.
pub open spec fn number_eq(a: u64, b: u64) -> bool {
    !is_nan(a) && !is_nan(b) && key(a) == key(b)
}

/// Strict order of numbers; NaN is neither less nor greater than anything.
pub open spec fn number_lt(a: u64, b: u64) -> bool {
    !is_nan(a) && !is_nan(b) && key(a) < key(b)
}

/// Truth of a number: true from 1 upwards, false from 0 downwards,
/// undecided in between and for NaN.
pub open spec fn number_truth(bits: u64) -> Boolean {
    if is_nan(bits) {
        Boolean::Maybe
    } else if key(bits) >= ONE {
        Boolean::True
    } else if key(bits) <= 0 {
        Boolean::False
    } else {
        Boolean::Maybe
    }
}

/// The number that stands for a boolean in a sum: 1 for true, 0 for false,
/// 0.5 for undecided.
pub open spec fn boolean_bits(value: Boolean) -> u64 {
    match value {
        Boolean::True => ONE,
        Boolean::False => ZERO,
        Boolean::Maybe => HALF,
    }
}

/// A binary64 number: its bit pattern, and its decimal text as the maker of
/// the number wrote it.
#[derive(Clone, Debug, PartialEq, Eq)]
pub struct Number {
    pub bits: u64,
    pub text: String,
}

/// Whether a bit pattern, read as a number, is NaN.
pub fn bits_nan(bits: u64) -> (r: bool)
    ensures
        r == is_nan(bits),
{
    let size = if bits >= SIGN {
        bits - SIGN
    } else {
        bits
    };
    size > INFINITY
}

/// Whether a bit pattern, read as a number, is zero.
pub fn bits_zero(bits: u64) -> (r: bool)
    ensures
        r == is_zero(bits),
{
    bits == 0 || bits == SIGN
}

/// Whether two bit patterns are equal as numbers.
pub fn bits_eq(a: u64, b: u64) -> (r: bool)
    ensures
        r == number_eq(a, b),
{
    if bits_nan(a) || bits_nan(b) {
        false
    } else {
        a == b || (bits_zero(a) && bits_zero(b))
    }
}

/// Whether the first bit pattern is less than the second as a number.
pub fn bits_lt(a: u64, b: u64) -> (r: bool)
    ensures
        r == number_lt(a, b),
{
    if bits_nan(a) || bits_nan(b) {
        false
    } else if a >= SIGN {
        if b >= SIGN {
            a > b
        } else {
            !(a == SIGN && b == 0)
        }
    } else {
        b < SIGN && a < b
    }
}

/// The bit pattern that stands for a boolean in a sum.
pub fn bits_of_boolean(value: Boolean) -> (bits: u64)
    ensures
        bits == boolean_bits(value),
{
    match value {
        Boolean::True => ONE,
        Boolean::False => ZERO,
        Boolean::Maybe => HALF,
    }
}

impl Number {
    /// A number from its bit pattern and its decimal text.
    pub fn new(bits: u64, text: String) -> (number: Number)
        ensures
            number.bits == bits,
            number.text == text,
    {
        Number { bits, text }
    }

    /// The same number once more.
    pub fn duplicate(&self) -> (number: Number)
        ensures
            number == *self,
    {
        Number { bits: self.bits, text: self.text.clone() }
    }

    /// Whether the number is NaN.
    pub fn is_nan(&self) -> (r: bool)
        ensures
            r == is_nan(self.bits),
    {
        bits_nan(self.bits)
    }

    /// Whether the number is zero, of either sign.
    pub fn is_zero(&self) -> (r: bool)
        ensures
            r == is_zero(self.bits),
    {
        bits_zero(self.bits)
    }

    /// Whether the sign bit is set: true of negative numbers, of -0 and of
    /// NaN with the sign bit.
    pub fn is_sign_negative(&self) -> (r: bool)
        ensures
            r == sign_negative(self.bits),
    {
        self.bits >= SIGN
    }

    /// Truth of the number.
    pub fn truth(&self) -> (r: Boolean)
        ensures
            r == number_truth(self.bits),
    {
        if bits_nan(self.bits) {
            Boolean::Maybe
        } else if self.bits >= SIGN || self.bits == 0 {
            Boolean::False
        } else if self.bits >= ONE {
            Boolean::True
        } else {
            Boolean::Maybe
        }
    }
}

} // verus!
