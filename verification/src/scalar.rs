use vstd::prelude::*;

verus! {

/// Pattern of positive zero.
pub const ZERO_BITS: u32 = 0;

/// Pattern of one half.
pub const HALF_BITS: u32 = 0x3f00_0000;

/// Pattern of one.
pub const ONE_BITS: u32 = 0x3f80_0000;

/// Pattern of positive infinity; every larger magnitude is not a number.
pub const INFINITY_BITS: u32 = 0x7f80_0000;

/// The sign bit.
pub const SIGN_BIT: u32 = 0x8000_0000;

/// A single-precision number of IEEE 754, held as its 32-bit pattern.
///
/// The library never computes with such a number: it carries it, negates it
/// and compares it. Sums, products and roots are the caller's.
/// `==` on two scalars compares the patterns, so it tells the two zeros apart.
#[derive(Clone, Copy, Debug, PartialEq, Eq, Structural)]
pub struct Scalar {
    pub bits: u32,
}

impl Scalar {
    /// The pattern without its sign bit.
    pub open spec fn magnitude(self) -> int {
        if self.bits < SIGN_BIT {
            self.bits as int
        } else {
            self.bits - SIGN_BIT
        }
    }

    /// Whether the sign bit is set.
    pub open spec fn is_negative(self) -> bool {
        self.bits >= SIGN_BIT
    }

    /// Whether the pattern is not a number.
    pub open spec fn spec_is_nan(self) -> bool {
        self.magnitude() > INFINITY_BITS
    }

    /// The place of the number on the line of integers: numbers that are not
    /// NaN are ordered as their ranks are, and the two zeros share rank 0.
    pub open spec fn rank(self) -> int {
        if self.is_negative() {
            -self.magnitude()
        } else {
            self.magnitude()
        }
    }

    /// `self < rhs` as IEEE 754 has it: false as soon as one side is NaN.
    pub open spec fn spec_lt(self, rhs: Scalar) -> bool {
        !self.spec_is_nan() && !rhs.spec_is_nan() && self.rank() < rhs.rank()
    }

    /// `self <= rhs` as IEEE 754 has it: false as soon as one side is NaN.
    pub open spec fn spec_le(self, rhs: Scalar) -> bool {
        !self.spec_is_nan() && !rhs.spec_is_nan() && self.rank() <= rhs.rank()
    }

    /// The number with its sign bit flipped.
    pub open spec fn spec_neg(self) -> Scalar {
        Scalar {
            bits: if self.bits < SIGN_BIT {
                (self.bits + SIGN_BIT) as u32
            } else {
                (self.bits - SIGN_BIT) as u32
            },
        }
    }

    /// The number with its sign bit cleared.
    pub open spec fn spec_abs(self) -> Scalar {
        Scalar { bits: self.magnitude() as u32 }
    }

    /// The smaller of two numbers; `rhs` unless `self < rhs`.
    pub open spec fn spec_min(self, rhs: Scalar) -> Scalar {
        if self.spec_lt(rhs) {
            self
        } else {
            rhs
        }
    }

    /// The larger of two numbers; `rhs` unless `rhs < self`.
    pub open spec fn spec_max(self, rhs: Scalar) -> Scalar {
        if rhs.spec_lt(self) {
            self
        } else {
            rhs
        }
    }

    pub fn new(bits: u32) -> (r: Scalar)
        ensures
            r.bits == bits,
    {
        Scalar { bits }
    }

    pub fn zero() -> (r: Scalar)
        ensures
            r.bits == ZERO_BITS,
    {
        Scalar { bits: ZERO_BITS }
    }

    pub fn one() -> (r: Scalar)
        ensures
            r.bits == ONE_BITS,
    {
        Scalar { bits: ONE_BITS }
    }

    pub fn infinity() -> (r: Scalar)
        ensures
            r.bits == INFINITY_BITS,
    {
        Scalar { bits: INFINITY_BITS }
    }

    #[verifier::when_used_as_spec(spec_is_nan)]
    pub fn is_nan(self) -> (r: bool)
        ensures
            r == self.spec_is_nan(),
    {
        if self.bits < SIGN_BIT {
            self.bits > INFINITY_BITS
        } else {
            self.bits - SIGN_BIT > INFINITY_BITS
        }
    }

    /// The rank as a machine integer.
    pub fn key(self) -> (r: i64)
        ensures
            r == self.rank(),
    {
        if self.bits < SIGN_BIT {
            self.bits as i64
        } else {
            -((self.bits - SIGN_BIT) as i64)
        }
    }

    #[verifier::when_used_as_spec(spec_lt)]
    pub fn lt(self, rhs: Scalar) -> (r: bool)
        ensures
            r == self.spec_lt(rhs),
    {
        !self.is_nan() && !rhs.is_nan() && self.key() < rhs.key()
    }

    #[verifier::when_used_as_spec(spec_le)]
    pub fn le(self, rhs: Scalar) -> (r: bool)
        ensures
            r == self.spec_le(rhs),
    {
        !self.is_nan() && !rhs.is_nan() && self.key() <= rhs.key()
    }

    #[verifier::when_used_as_spec(spec_neg)]
    pub fn neg(self) -> (r: Scalar)
        ensures
            r == self.spec_neg(),
    {
        if self.bits < SIGN_BIT {
            Scalar { bits: self.bits + SIGN_BIT }
        } else {
            Scalar { bits: self.bits - SIGN_BIT }
        }
    }

    #[verifier::when_used_as_spec(spec_abs)]
    pub fn abs(self) -> (r: Scalar)
        ensures
            r == self.spec_abs(),
    {
        if self.bits < SIGN_BIT {
            self
        } else {
            Scalar { bits: self.bits - SIGN_BIT }
        }
    }

    #[verifier::when_used_as_spec(spec_min)]
    pub fn min(self, rhs: Scalar) -> (r: Scalar)
        ensures
            r == self.spec_min(rhs),
    {
        if self.lt(rhs) {
            self
        } else {
            rhs
        }
    }

    #[verifier::when_used_as_spec(spec_max)]
    pub fn max(self, rhs: Scalar) -> (r: Scalar)
        ensures
            r == self.spec_max(rhs),
    {
        if rhs.lt(self) {
            self
        } else {
            rhs
        }
    }

    /// Negation mirrors the line of ranks and keeps NaN a NaN; twice, it is
    /// the identity.
    pub proof fn lemma_neg(self)
        ensures
            self.spec_neg().rank() == -self.rank(),
            self.spec_neg().spec_is_nan() == self.spec_is_nan(),
            self.spec_neg().spec_neg() == self,
    {
    }

    /// Of two numbers, neither a NaN, the minimum has the smaller rank and
    /// the maximum the larger.
    pub proof fn lemma_min_max(self, rhs: Scalar)
        requires
            !self.spec_is_nan(),
            !rhs.spec_is_nan(),
        ensures
            self.spec_min(rhs).rank() == vstd::math::min(self.rank(), rhs.rank()),
            self.spec_max(rhs).rank() == vstd::math::max(self.rank(), rhs.rank()),
            !self.spec_min(rhs).spec_is_nan(),
            !self.spec_max(rhs).spec_is_nan(),
    {
    }
}

} // verus!
