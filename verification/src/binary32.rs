//! Single-precision numbers, held by their bit patterns.
//!
//! Offsets and weights of utterance events are IEEE 754 single-precision
//! numbers. Here such a number is its 32 bits, and its order is read off
//! them in integer arithmetic.

use vstd::prelude::*;

verus! {

/// An IEEE 754 single-precision number, held by its bit pattern: the sign in
/// the highest bit, then eight bits of exponent, then 23 bits of fraction.
#[derive(Debug, Clone, Copy)]
pub struct Binary32(pub u32);

impl Binary32 {
    /// The bits below the sign: exponent and fraction. Among numbers of one
    /// sign, a greater magnitude is a number farther from zero.
    pub open spec fn magnitude(self) -> int {
        self.0 as int % 0x8000_0000
    }

    /// Whether the sign bit is set.
    pub open spec fn is_negative(self) -> bool {
        self.0 >= 0x8000_0000
    }

    /// Whether this is not a number: all exponent bits set and a fraction
    /// other than zero.
    pub open spec fn spec_is_nan(self) -> bool {
        self.magnitude() > 0x7f80_0000
    }

    /// The place of a number in the order of the numbers: its magnitude, or
    /// minus its magnitude where the sign bit is set. The two zeros have the
    /// same place.
    pub open spec fn rank(self) -> int {
        if self.is_negative() {
            -self.magnitude()
        } else {
            self.magnitude()
        }
    }

    /// Whether `self` is less than or equal to `other`. Nothing is less than
    /// or equal to what is not a number, nor the other way round.
    pub open spec fn spec_le(self, other: Binary32) -> bool {
        !self.spec_is_nan() && !other.spec_is_nan() && self.rank() <= other.rank()
    }

    /// Whether this is not a number.
    #[verifier::when_used_as_spec(spec_is_nan)]
    pub fn is_nan(self) -> (r: bool)
        ensures
            r == self.spec_is_nan(),
    {
        self.0 % 0x8000_0000 > 0x7f80_0000
    }

    /// Whether `self` is less than or equal to `other`.
    #[verifier::when_used_as_spec(spec_le)]
    pub fn le(self, other: Binary32) -> (r: bool)
        ensures
            r == self.spec_le(other),
    {
        if self.is_nan() || other.is_nan() {
            return false;
        }
        let a: u32 = self.0 % 0x8000_0000;
        let b: u32 = other.0 % 0x8000_0000;
        if self.0 >= 0x8000_0000 {
            if other.0 >= 0x8000_0000 {
                b <= a
            } else {
                true
            }
        } else {
            if other.0 >= 0x8000_0000 {
                a == 0 && b == 0
            } else {
                a <= b
            }
        }
    }
}

/// The order of the numbers is transitive.
pub proof fn le_is_transitive(a: Binary32, b: Binary32, c: Binary32)
    requires
        a.le(b),
        b.le(c),
    ensures
        a.le(c),
{
}

} // verus!
