//! Real numbers as they travel: the 64 bits of an IEEE 754 binary64 value.
//!
//! The library carries such numbers, orders them and picks among them. It does no
//! arithmetic on them.

use vstd::prelude::*;

verus! {

/// The bit pattern of a binary64 number.
#[derive(Clone, Copy, Debug, PartialEq, Eq, Structural)]
pub struct Scalar {
    pub bits: u64,
}

/// The sign bit.
pub const SIGN: u64 = 0x8000_0000_0000_0000;

/// The bits of positive infinity; greater magnitudes are not numbers.
pub const INFINITY: u64 = 0x7ff0_0000_0000_0000;

impl DeepView for Scalar {
    type V = Scalar;

    open spec fn deep_view(&self) -> Scalar {
        *self
    }
}

impl Scalar {
    pub open spec fn is_negative(self) -> bool {
        self.bits >= SIGN
    }

    /// All bits but the sign, as a number.
    pub open spec fn magnitude(self) -> int {
        if self.is_negative() {
            self.bits - SIGN
        } else {
            self.bits as int
        }
    }

    pub open spec fn not_a_number(self) -> bool {
        self.magnitude() > INFINITY
    }

    pub open spec fn finite(self) -> bool {
        self.magnitude() < INFINITY
    }

    /// Where the number stands among the others: numbers compare as their ranks do.
    pub open spec fn rank(self) -> int {
        if self.is_negative() {
            -self.magnitude()
        } else {
            self.magnitude()
        }
    }

    /// `self < other`, which no pair with a not-a-number meets.
    pub open spec fn below(self, other: Scalar) -> bool {
        !self.not_a_number() && !other.not_a_number() && self.rank() < other.rank()
    }

    /// `self <= other`, which no pair with a not-a-number meets.
    pub open spec fn at_most(self, other: Scalar) -> bool {
        !self.not_a_number() && !other.not_a_number() && self.rank() <= other.rank()
    }

    /// The lesser of two numbers; a not-a-number gives way to the other.
    pub open spec fn lesser(self, other: Scalar) -> Scalar {
        if self.not_a_number() || other.below(self) {
            other
        } else {
            self
        }
    }

    fn ranked(self) -> (r: i128)
        ensures
            r == self.rank(),
    {
        if self.bits >= SIGN {
            0 - ((self.bits - SIGN) as i128)
        } else {
            self.bits as i128
        }
    }

    pub fn is_nan(self) -> (r: bool)
        ensures
            r == self.not_a_number(),
    {
        if self.bits >= SIGN {
            self.bits - SIGN > INFINITY
        } else {
            self.bits > INFINITY
        }
    }

    pub fn is_finite(self) -> (r: bool)
        ensures
            r == self.finite(),
    {
        if self.bits >= SIGN {
            self.bits - SIGN < INFINITY
        } else {
            self.bits < INFINITY
        }
    }

    pub fn lt(self, other: Scalar) -> (r: bool)
        ensures
            r == self.below(other),
    {
        !self.is_nan() && !other.is_nan() && self.ranked() < other.ranked()
    }

    pub fn le(self, other: Scalar) -> (r: bool)
        ensures
            r == self.at_most(other),
    {
        !self.is_nan() && !other.is_nan() && self.ranked() <= other.ranked()
    }

    pub fn min(self, other: Scalar) -> (r: Scalar)
        ensures
            r == self.lesser(other),
    {
        if self.is_nan() || other.lt(self) {
            other
        } else {
            self
        }
    }
}

/// Zero.
pub open spec fn zero_spec() -> Scalar {
    Scalar { bits: 0 }
}

pub fn zero() -> (r: Scalar)
    ensures
        r == zero_spec(),
{
    Scalar { bits: 0 }
}

pub open spec fn infinity_spec() -> Scalar {
    Scalar { bits: INFINITY }
}

pub fn infinity() -> (r: Scalar)
    ensures
        r == infinity_spec(),
{
    Scalar { bits: INFINITY }
}

/// The lesser of two numbers is at most either of them.
pub proof fn lesser_is_a_lower_bound(a: Scalar, b: Scalar)
    ensures
        !a.not_a_number() ==> a.lesser(b).at_most(a),
        !b.not_a_number() ==> a.lesser(b).at_most(b),
        a.lesser(b) == a || a.lesser(b) == b,
{
}

/// A point in millimetres.
#[derive(Clone, Copy, Debug, PartialEq, Eq, Structural)]
pub struct Point {
    pub x: Scalar,
    pub y: Scalar,
}

impl DeepView for Point {
    type V = Point;

    open spec fn deep_view(&self) -> Point {
        *self
    }
}

} // verus!
