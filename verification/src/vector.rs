use vstd::prelude::*;
use crate::scalar::Scalar;

verus! {

/// Pattern of ten to the minus eight, the bound below which a component
/// counts as zero.
pub const NEAR_ZERO_BITS: u32 = 0x322b_cc77;

/// A point, a direction or a normal: three scalars.
#[derive(Clone, Copy, Debug, PartialEq, Eq, Structural)]
pub struct Vec3 {
    pub x: Scalar,
    pub y: Scalar,
    pub z: Scalar,
}

impl Vec3 {
    pub open spec fn spec_neg(self) -> Vec3 {
        Vec3 { x: self.x.spec_neg(), y: self.y.spec_neg(), z: self.z.spec_neg() }
    }

    pub open spec fn spec_min(self, rhs: Vec3) -> Vec3 {
        Vec3 { x: self.x.spec_min(rhs.x), y: self.y.spec_min(rhs.y), z: self.z.spec_min(rhs.z) }
    }

    pub open spec fn spec_max(self, rhs: Vec3) -> Vec3 {
        Vec3 { x: self.x.spec_max(rhs.x), y: self.y.spec_max(rhs.y), z: self.z.spec_max(rhs.z) }
    }

    /// No component is a NaN.
    pub open spec fn is_numeric(self) -> bool {
        !self.x.spec_is_nan() && !self.y.spec_is_nan() && !self.z.spec_is_nan()
    }

    /// Every component of `self` is at most the same component of `rhs`.
    pub open spec fn all_le(self, rhs: Vec3) -> bool {
        self.x.rank() <= rhs.x.rank() && self.y.rank() <= rhs.y.rank() && self.z.rank()
            <= rhs.z.rank()
    }

    pub fn new(x: Scalar, y: Scalar, z: Scalar) -> (r: Vec3)
        ensures
            r == (Vec3 { x, y, z }),
    {
        Vec3 { x, y, z }
    }

    pub fn from_bits(x: u32, y: u32, z: u32) -> (r: Vec3)
        ensures
            r.x.bits == x,
            r.y.bits == y,
            r.z.bits == z,
    {
        Vec3 { x: Scalar { bits: x }, y: Scalar { bits: y }, z: Scalar { bits: z } }
    }

    pub fn to_bits(self) -> (r: [u32; 3])
        ensures
            r[0] == self.x.bits,
            r[1] == self.y.bits,
            r[2] == self.z.bits,
    {
        [self.x.bits, self.y.bits, self.z.bits]
    }

    pub open spec fn spec_splat(v: Scalar) -> Vec3 {
        Vec3 { x: v, y: v, z: v }
    }

    #[verifier::when_used_as_spec(spec_splat)]
    pub fn splat(v: Scalar) -> (r: Vec3)
        ensures
            r == Self::spec_splat(v),
    {
        Vec3 { x: v, y: v, z: v }
    }

    /// The component on an axis: 0 for x, 1 for y, anything else for z.
    pub open spec fn spec_axis(self, axis: usize) -> Scalar {
        if axis == 0 {
            self.x
        } else if axis == 1 {
            self.y
        } else {
            self.z
        }
    }

    #[verifier::when_used_as_spec(spec_axis)]
    pub fn axis(self, axis: usize) -> (r: Scalar)
        ensures
            r == self.spec_axis(axis),
    {
        if axis == 0 {
            self.x
        } else if axis == 1 {
            self.y
        } else {
            self.z
        }
    }

    #[verifier::when_used_as_spec(spec_neg)]
    pub fn neg(self) -> (r: Vec3)
        ensures
            r == self.spec_neg(),
    {
        Vec3 { x: self.x.neg(), y: self.y.neg(), z: self.z.neg() }
    }

    #[verifier::when_used_as_spec(spec_min)]
    pub fn min(self, rhs: Vec3) -> (r: Vec3)
        ensures
            r == self.spec_min(rhs),
    {
        Vec3 { x: self.x.min(rhs.x), y: self.y.min(rhs.y), z: self.z.min(rhs.z) }
    }

    #[verifier::when_used_as_spec(spec_max)]
    pub fn max(self, rhs: Vec3) -> (r: Vec3)
        ensures
            r == self.spec_max(rhs),
    {
        Vec3 { x: self.x.max(rhs.x), y: self.y.max(rhs.y), z: self.z.max(rhs.z) }
    }
}

/// Whether each component is smaller in magnitude than ten to the minus
/// eight.
pub open spec fn spec_near_zero(v: Vec3) -> bool {
    let eta = Scalar { bits: NEAR_ZERO_BITS };
    v.x.spec_abs().spec_lt(eta) && v.y.spec_abs().spec_lt(eta) && v.z.spec_abs().spec_lt(eta)
}

/// Tells a direction that is too short to be normalised.
#[verifier::when_used_as_spec(spec_near_zero)]
pub fn near_zero(v: Vec3) -> (r: bool)
    ensures
        r == spec_near_zero(v),
        r == (v.x.magnitude() < NEAR_ZERO_BITS && v.y.magnitude() < NEAR_ZERO_BITS
            && v.z.magnitude() < NEAR_ZERO_BITS),
{
    let eta = Scalar { bits: NEAR_ZERO_BITS };
    v.x.abs().lt(eta) && v.y.abs().lt(eta) && v.z.abs().lt(eta)
}

} // verus!
