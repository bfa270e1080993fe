//! Single-precision numbers held as their bit patterns.
//!
//! Probabilities, thresholds and similarities arrive as 32-bit IEEE 754 numbers.
//! The library only compares them, and on bit patterns that is a comparison of
//! integers.
use vstd::prelude::*;

verus! {

/// The bit pattern of 1.0.
pub const ONE_BITS: u32 = 0x3f80_0000;

/// A 32-bit IEEE 754 number, by its bit pattern.
#[derive(Clone, Copy, Debug, PartialEq, Eq, Structural)]
pub struct FloatBits {
    pub bits: u32,
}

impl DeepView for FloatBits {
    type V = FloatBits;

    open spec fn deep_view(&self) -> FloatBits {
        *self
    }
}

impl FloatBits {
    /// The pattern without its sign bit.
    pub open spec fn magnitude(self) -> int {
        self.bits as int % 0x8000_0000
    }

    /// Not a number: the exponent is all ones and the fraction is not zero.
    pub open spec fn is_nan(self) -> bool {
        self.magnitude() > 0x7f80_0000
    }

    /// An integer that orders numbers as their values do; both zeros give 0.
    pub open spec fn rank(self) -> int {
        if self.bits >= 0x8000_0000 {
            -self.magnitude()
        } else {
            self.magnitude()
        }
    }

    /// `self >= other` as numbers; false where one of them is not a number.
    pub open spec fn at_least(self, other: FloatBits) -> bool {
        !self.is_nan() && !other.is_nan() && self.rank() >= other.rank()
    }

    /// `self > other` as numbers; false where one of them is not a number.
    pub open spec fn above(self, other: FloatBits) -> bool {
        !self.is_nan() && !other.is_nan() && self.rank() > other.rank()
    }

    /// The number 1.
    pub open spec fn one_spec() -> FloatBits {
        FloatBits { bits: ONE_BITS }
    }

    /// The number 0.
    pub open spec fn zero_spec() -> FloatBits {
        FloatBits { bits: 0 }
    }

    /// The number 1.
    pub fn one() -> (r: FloatBits)
        ensures
            r == FloatBits::one_spec(),
    {
        FloatBits { bits: ONE_BITS }
    }

    /// The number 0.
    pub fn zero() -> (r: FloatBits)
        ensures
            r == FloatBits::zero_spec(),
    {
        FloatBits { bits: 0 }
    }

    fn nan(self) -> (r: bool)
        ensures
            r == self.is_nan(),
    {
        self.bits % 0x8000_0000 > 0x7f80_0000
    }

    fn ordinal(self) -> (r: i64)
        ensures
            r == self.rank(),
    {
        let m: i64 = (self.bits % 0x8000_0000) as i64;
        if self.bits >= 0x8000_0000 {
            -m
        } else {
            m
        }
    }

    /// `self >= other`.
    pub fn ge(self, other: FloatBits) -> (r: bool)
        ensures
            r == self.at_least(other),
    {
        !self.nan() && !other.nan() && self.ordinal() >= other.ordinal()
    }

    /// `self > other`.
    pub fn gt(self, other: FloatBits) -> (r: bool)
        ensures
            r == self.above(other),
    {
        !self.nan() && !other.nan() && self.ordinal() > other.ordinal()
    }
}

/// Among numbers, exactly one of `a >= b` and `b > a` holds.
pub proof fn law_order_is_total(a: FloatBits, b: FloatBits)
    requires
        !a.is_nan(),
        !b.is_nan(),
    ensures
        a.at_least(b) <==> !b.above(a),
{
}

/// Numbers without a sign are ordered as their patterns are, numbers with one the other
/// way round and below all those without, both zeros are the same, and what is not a
/// number compares with nothing.
pub proof fn law_patterns_order_numbers(a: FloatBits, b: FloatBits)
    ensures
        0x7f80_0000 < a.bits < 0x8000_0000 || 0xff80_0000 < a.bits ==> !a.at_least(b)
            && !b.at_least(a) && !a.above(b) && !b.above(a),
        a.bits <= 0x7f80_0000 && b.bits <= 0x7f80_0000 ==> (a.at_least(b) <==> a.bits >= b.bits),
        0x8000_0000 <= a.bits <= 0xff80_0000 && 0x8000_0000 <= b.bits <= 0xff80_0000 ==> (
        a.at_least(b) <==> a.bits <= b.bits),
        a.bits <= 0x7f80_0000 && 0x8000_0000 < b.bits <= 0xff80_0000 ==> a.above(b)
            && !b.at_least(a),
        a.bits == 0 && b.bits == 0x8000_0000 ==> a.at_least(b) && b.at_least(a),
{
}

} // verus!
