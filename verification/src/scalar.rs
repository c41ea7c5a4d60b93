//! Single-precision numbers by their bit patterns.
//!
//! A [`Scalar`] is the 32-bit IEEE 754 encoding of a number: one sign bit,
//! eight exponent bits, twenty-three fraction bits. The sign bit apart, the
//! encoding of a larger magnitude is the larger integer, because the exponent
//! stands above the fraction. Sign tests, the absolute value and the order of
//! two numbers can therefore be read off the encoding with integer
//! arithmetic, which is what this module does. It does no arithmetic on the
//! numbers themselves.
//!
//! Encodings whose magnitude bits exceed those of infinity stand for no
//! number ("NaN"). As IEEE 754 has it, every comparison with one is false.

use vstd::prelude::*;

verus! {

/// The sign bit of the encoding; everything below it is the magnitude.
pub const SIGN_BIT: u32 = 0x8000_0000;

/// The magnitude bits of an infinity. Larger magnitudes encode no number.
pub const INFINITY_BITS: u32 = 0x7F80_0000;

/// The encoding of `1.0`.
pub const ONE_BITS: u32 = 0x3F80_0000;

/// The encoding of `440.0`.
pub const CONCERT_PITCH_BITS: u32 = 0x43DC_0000;

/// A single-precision number, held as its IEEE 754 bit pattern.
#[derive(Clone, Copy, Debug, PartialEq, Eq, Structural)]
pub struct Scalar {
    pub bits: u32,
}

impl Scalar {
    /// Positive zero.
    pub open spec fn zero() -> Scalar {
        Scalar { bits: 0 }
    }

    /// The number one.
    pub open spec fn one() -> Scalar {
        Scalar { bits: ONE_BITS }
    }

    /// The encoding with its sign bit cleared.
    pub open spec fn magnitude(self) -> int {
        (self.bits % SIGN_BIT) as int
    }

    /// Whether the sign bit is set.
    pub open spec fn sign_negative(self) -> bool {
        self.bits >= SIGN_BIT
    }

    /// Whether the encoding stands for no number at all.
    pub open spec fn spec_is_nan(self) -> bool {
        self.magnitude() > INFINITY_BITS
    }

    /// The place of a number on the number line, as an integer: encodings of
    /// numbers order as their ranks do, and both zeros have rank zero.
    pub open spec fn rank(self) -> int {
        if self.sign_negative() {
            -self.magnitude()
        } else {
            self.magnitude()
        }
    }

    /// `self > other` as IEEE 754 defines it: false when either is no number.
    pub open spec fn spec_gt(self, other: Scalar) -> bool {
        !self.spec_is_nan() && !other.spec_is_nan() && self.rank() > other.rank()
    }

    /// `self <= other` as IEEE 754 defines it: false when either is no number.
    pub open spec fn spec_le(self, other: Scalar) -> bool {
        !self.spec_is_nan() && !other.spec_is_nan() && self.rank() <= other.rank()
    }

    /// `self == 0.0`, which holds of both zeros.
    pub open spec fn spec_is_zero(self) -> bool {
        self.magnitude() == 0
    }

    /// `self > 0.0`.
    pub open spec fn spec_is_positive(self) -> bool {
        self.spec_gt(Scalar::zero())
    }

    /// `self <= 0.0`.
    pub open spec fn spec_is_non_positive(self) -> bool {
        self.spec_le(Scalar::zero())
    }

    /// The absolute value: the same encoding with the sign bit cleared.
    pub open spec fn spec_abs(self) -> Scalar {
        Scalar { bits: (self.bits % SIGN_BIT) as u32 }
    }

    /// Of two numbers, one is greater than the other or at most equal to it,
    /// and never both.
    pub proof fn lemma_gt_or_le(self, other: Scalar)
        ensures
            !self.is_nan() && !other.is_nan() ==> self.gt(other) != self.le(other),
            self.is_nan() || other.is_nan() ==> !self.gt(other) && !self.le(other),
    {
    }

    /// The number with the given encoding.
    pub fn from_bits(bits: u32) -> (r: Scalar)
        ensures
            r.bits == bits,
    {
        Scalar { bits }
    }

    /// The encoding of the number.
    pub fn to_bits(self) -> (r: u32)
        ensures
            r == self.bits,
    {
        self.bits
    }

    /// The absolute value.
    #[verifier::when_used_as_spec(spec_abs)]
    pub fn abs(self) -> (r: Scalar)
        ensures
            r == self.spec_abs(),
            r.magnitude() == self.magnitude(),
            !r.sign_negative(),
            r.spec_is_nan() == self.spec_is_nan(),
    {
        if self.bits >= SIGN_BIT {
            Scalar { bits: self.bits - SIGN_BIT }
        } else {
            self
        }
    }

    /// Whether the encoding stands for no number.
    #[verifier::when_used_as_spec(spec_is_nan)]
    pub fn is_nan(self) -> (r: bool)
        ensures
            r == self.spec_is_nan(),
    {
        self.abs().bits > INFINITY_BITS
    }

    /// `self > other`.
    #[verifier::when_used_as_spec(spec_gt)]
    pub fn gt(self, other: Scalar) -> (r: bool)
        ensures
            r == self.spec_gt(other),
    {
        if self.is_nan() || other.is_nan() {
            return false;
        }
        let a: u32 = self.abs().bits;
        let b: u32 = other.abs().bits;
        if self.bits >= SIGN_BIT {
            other.bits >= SIGN_BIT && a < b
        } else {
            if other.bits >= SIGN_BIT {
                a > 0 || b > 0
            } else {
                a > b
            }
        }
    }

    /// `self <= other`.
    #[verifier::when_used_as_spec(spec_le)]
    pub fn le(self, other: Scalar) -> (r: bool)
        ensures
            r == self.spec_le(other),
    {
        if self.is_nan() || other.is_nan() {
            return false;
        }
        !self.gt(other)
    }

    /// `self == 0.0`.
    #[verifier::when_used_as_spec(spec_is_zero)]
    pub fn is_zero(self) -> (r: bool)
        ensures
            r == self.spec_is_zero(),
    {
        self.bits == 0 || self.bits == SIGN_BIT
    }

    /// `self > 0.0`.
    #[verifier::when_used_as_spec(spec_is_positive)]
    pub fn is_positive(self) -> (r: bool)
        ensures
            r == self.spec_is_positive(),
    {
        self.gt(Scalar { bits: 0 })
    }

    /// `self <= 0.0`.
    #[verifier::when_used_as_spec(spec_is_non_positive)]
    pub fn is_non_positive(self) -> (r: bool)
        ensures
            r == self.spec_is_non_positive(),
    {
        self.le(Scalar { bits: 0 })
    }
}

} // verus!
