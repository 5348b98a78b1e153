use vstd::prelude::*;
use crate::scalar::{Scalar, INFINITY_BITS};
use crate::shape::Ray;
use crate::vector::Vec3;

verus! {

/// An axis-aligned box, given by its least and its greatest corner.
#[derive(Clone, Copy, Debug, PartialEq, Eq, Structural)]
pub struct BoundingBox {
    pub min: Vec3,
    pub max: Vec3,
}

impl BoundingBox {
    /// No coordinate of either corner is a NaN.
    pub open spec fn is_numeric(self) -> bool {
        self.min.is_numeric() && self.max.is_numeric()
    }

    /// The corners are numbers and the least corner is nowhere above the
    /// greatest.
    pub open spec fn well_formed(self) -> bool {
        self.is_numeric() && self.min.all_le(self.max)
    }

    /// `other` lies within `self`.
    pub open spec fn encloses(self, other: BoundingBox) -> bool {
        self.min.all_le(other.min) && other.max.all_le(self.max)
    }

    /// The box with both corners at the origin.
    pub open spec fn spec_zero() -> BoundingBox {
        let o = Scalar { bits: 0 };
        BoundingBox { min: Vec3 { x: o, y: o, z: o }, max: Vec3 { x: o, y: o, z: o } }
    }

    /// The least box around two boxes.
    pub open spec fn spec_union(self, other: BoundingBox) -> BoundingBox {
        BoundingBox { min: self.min.spec_min(other.min), max: self.max.spec_max(other.max) }
    }

    pub fn new(min: Vec3, max: Vec3) -> (r: BoundingBox)
        ensures
            r == (BoundingBox { min, max }),
    {
        BoundingBox { min, max }
    }

    #[verifier::when_used_as_spec(spec_zero)]
    pub fn zero() -> (r: BoundingBox)
        ensures
            r == Self::spec_zero(),
    {
        let o = Scalar { bits: 0 };
        BoundingBox { min: Vec3 { x: o, y: o, z: o }, max: Vec3 { x: o, y: o, z: o } }
    }

    #[verifier::when_used_as_spec(spec_union)]
    pub fn union(self, other: BoundingBox) -> (r: BoundingBox)
        ensures
            r == self.spec_union(other),
            self.is_numeric() && other.is_numeric() ==> r.is_numeric() && r.encloses(self)
                && r.encloses(other),
    {
        proof {
            if self.is_numeric() && other.is_numeric() {
                Self::lemma_union(self, other);
            }
        }
        BoundingBox { min: self.min.min(other.min), max: self.max.max(other.max) }
    }

    /// The union of two boxes holds both: its least corner is, coordinate by
    /// coordinate, the smaller of the two least corners, its greatest corner
    /// the larger of the two greatest. It is the least such box, and
    /// well formed where both are.
    pub proof fn lemma_union(a: BoundingBox, b: BoundingBox)
        requires
            a.is_numeric(),
            b.is_numeric(),
        ensures
            a.spec_union(b).is_numeric(),
            a.spec_union(b).encloses(a),
            a.spec_union(b).encloses(b),
            forall|axis: usize| #[trigger]
                a.spec_union(b).min.spec_axis(axis).rank() == vstd::math::min(
                    a.min.spec_axis(axis).rank(),
                    b.min.spec_axis(axis).rank(),
                ),
            forall|axis: usize| #[trigger]
                a.spec_union(b).max.spec_axis(axis).rank() == vstd::math::max(
                    a.max.spec_axis(axis).rank(),
                    b.max.spec_axis(axis).rank(),
                ),
            forall|c: BoundingBox|
                c.encloses(a) && c.encloses(b) ==> #[trigger] c.encloses(a.spec_union(b)),
            a.well_formed() && b.well_formed() ==> a.spec_union(b).well_formed(),
    {
        a.min.x.lemma_min_max(b.min.x);
        a.min.y.lemma_min_max(b.min.y);
        a.min.z.lemma_min_max(b.min.z);
        a.max.x.lemma_min_max(b.max.x);
        a.max.y.lemma_min_max(b.max.y);
        a.max.z.lemma_min_max(b.max.z);
    }

    /// Enclosing is transitive.
    pub proof fn lemma_encloses_trans(a: BoundingBox, b: BoundingBox, c: BoundingBox)
        requires
            a.encloses(b),
            b.encloses(c),
        ensures
            a.encloses(c),
    {
    }
}

/// The stretch of a ray's parameter within one pair of parallel planes.
///
/// `near` and `far` are the parameters at which the ray meets the two planes,
/// in either order. A NaN on either side (a ray that runs inside a plane)
/// leaves the axis without a say.
pub open spec fn slab_lo(near: Scalar, far: Scalar, otherwise: int) -> int {
    if near.spec_is_nan() || far.spec_is_nan() {
        otherwise
    } else {
        vstd::math::min(near.rank(), far.rank())
    }
}

pub open spec fn slab_hi(near: Scalar, far: Scalar, otherwise: int) -> int {
    if near.spec_is_nan() || far.spec_is_nan() {
        otherwise
    } else {
        vstd::math::max(near.rank(), far.rank())
    }
}

/// Whether a parameter of rank `t` lies within the slab of one axis.
pub open spec fn within_slab(near: Scalar, far: Scalar, t: int) -> bool {
    slab_lo(near, far, t) <= t <= slab_hi(near, far, t)
}

/// The parameters at which a ray crosses the three pairs of planes that
/// bound a box: for each axis the plane through the least corner (`near`) and
/// the plane through the greatest (`far`).
#[derive(Clone, Copy, Debug, PartialEq, Eq, Structural)]
pub struct Slabs {
    pub near: Vec3,
    pub far: Vec3,
}

impl Slabs {
    /// Whether some parameter of rank `t` between `t_min` and `t_max` lies
    /// within all three slabs.
    pub open spec fn meets_at(self, t: int, t_min: Scalar, t_max: Scalar) -> bool {
        &&& -INFINITY_BITS < t < INFINITY_BITS
        &&& t_min.rank() <= t <= t_max.rank()
        &&& within_slab(self.near.x, self.far.x, t)
        &&& within_slab(self.near.y, self.far.y, t)
        &&& within_slab(self.near.z, self.far.z, t)
    }

    /// The slab test: the ray is inside the box at some finite parameter
    /// between `t_min` and `t_max`, both ends counted.
    pub open spec fn spec_overlap(self, t_min: Scalar, t_max: Scalar) -> bool {
        &&& !t_min.spec_is_nan()
        &&& !t_max.spec_is_nan()
        &&& exists|t: int| self.meets_at(t, t_min, t_max)
    }

    /// Whether the ray's origin, the point of parameter zero, lies within
    /// all three slabs, and the ray leaves none of them before `t_min`.
    pub open spec fn starts_inside(self, t_min: Scalar) -> bool {
        &&& within_slab(self.near.x, self.far.x, 0)
        &&& within_slab(self.near.y, self.far.y, 0)
        &&& within_slab(self.near.z, self.far.z, 0)
        &&& t_min.rank() <= slab_hi(self.near.x, self.far.x, t_min.rank())
        &&& t_min.rank() <= slab_hi(self.near.y, self.far.y, t_min.rank())
        &&& t_min.rank() <= slab_hi(self.near.z, self.far.z, t_min.rank())
    }

    /// A ray that starts inside the box and goes forward meets the box from
    /// `t_min` on, unless it has left the box before.
    pub proof fn lemma_starts_inside(self, t_min: Scalar, t_max: Scalar)
        requires
            !t_min.spec_is_nan(),
            !t_max.spec_is_nan(),
            t_min.rank() <= t_max.rank(),
            t_min.rank() < INFINITY_BITS,
            0 <= t_max.rank(),
            self.starts_inside(t_min),
        ensures
            self.spec_overlap(t_min, t_max),
    {
        let t = vstd::math::max(0, t_min.rank());
        assert(self.meets_at(t, t_min, t_max));
    }

    pub fn new(near: Vec3, far: Vec3) -> (r: Slabs)
        ensures
            r == (Slabs { near, far }),
    {
        Slabs { near, far }
    }

    /// Decides the slab test by narrowing the window from `t_min` to `t_max`
    /// axis by axis.
    pub fn overlap(self, t_min: Scalar, t_max: Scalar) -> (r: bool)
        ensures
            r == self.spec_overlap(t_min, t_max),
    {
        if t_min.is_nan() || t_max.is_nan() {
            return false;
        }
        let lo0: i64 = t_min.key();
        let hi0: i64 = t_max.key();
        let (lo1, hi1) = narrow(self.near.x, self.far.x, lo0, hi0);
        let (lo2, hi2) = narrow(self.near.y, self.far.y, lo1, hi1);
        let (lo3, hi3) = narrow(self.near.z, self.far.z, lo2, hi2);
        let inf: i64 = INFINITY_BITS as i64;
        let met = lo3 <= hi3 && lo3 < inf && -inf < hi3;
        proof {
            if met {
                let t: int = if -inf < lo3 {
                    lo3 as int
                } else if hi3 < inf {
                    hi3 as int
                } else {
                    0
                };
                assert(self.meets_at(t, t_min, t_max));
            } else {
                assert forall|t: int| !self.meets_at(t, t_min, t_max) by {}
            }
        }
        met
    }
}

impl BoundingBox {
    /// Whether a ray is inside the box at some finite parameter between
    /// `t_min` and `t_max`; `slabs` is the arithmetic that says where the
    /// ray crosses the planes of the box.
    pub fn ray_intersect<L: Fn(Ray, BoundingBox) -> Slabs>(
        &self,
        ray: &Ray,
        t_min: Scalar,
        t_max: Scalar,
        slabs: &L,
    ) -> (r: bool)
        requires
            forall|ray: Ray, bounds: BoundingBox| call_requires(*slabs, (ray, bounds)),
        ensures
            exists|s: Slabs|
                call_ensures(*slabs, (*ray, *self), s) && r == s.spec_overlap(t_min, t_max),
    {
        let s = slabs(*ray, *self);
        s.overlap(t_min, t_max)
    }
}

/// Cuts the window `[lo, hi]` down to the part within one slab.
fn narrow(near: Scalar, far: Scalar, lo: i64, hi: i64) -> (r: (i64, i64))
    ensures
        r.0 == vstd::math::max(lo as int, slab_lo(near, far, lo as int)),
        r.1 == vstd::math::min(hi as int, slab_hi(near, far, hi as int)),
{
    if near.is_nan() || far.is_nan() {
        (lo, hi)
    } else {
        let a: i64 = near.key();
        let b: i64 = far.key();
        let first: i64 = if a < b { a } else { b };
        let last: i64 = if a < b { b } else { a };
        (if lo < first { first } else { lo }, if hi < last { hi } else { last })
    }
}

} // verus!
