use vstd::prelude::*;
use crate::bounds::{BoundingBox, Slabs};
use crate::key::MaterialKey;
use crate::scalar::Scalar;
use crate::vector::Vec3;

verus! {

/// A half-line: the points `origin + t * direction` for `t` from zero on.
#[derive(Clone, Copy, Debug, PartialEq, Eq, Structural)]
pub struct Ray {
    pub origin: Vec3,
    pub direction: Vec3,
}

/// The side of a surface that a ray struck.
#[derive(Clone, Copy, Debug, PartialEq, Eq, Structural)]
pub enum Face {
    Front,
    Back,
}

/// What is known of the place where a ray struck a surface.
#[derive(Clone, Copy, Debug, PartialEq, Eq, Structural)]
pub struct HitRecord {
    pub point: Vec3,
    /// Unit normal, turned against the incoming ray.
    pub normal: Vec3,
    pub u: Scalar,
    pub v: Scalar,
    pub face: Face,
    pub material_key: MaterialKey,
}

impl Ray {
    pub fn new(origin: Vec3, direction: Vec3) -> (r: Ray)
        ensures
            r == (Ray { origin, direction }),
    {
        Ray { origin, direction }
    }
}

/// The face and the normal that go into a hit record.
///
/// `facing` is the inner product of the ray's direction with the outward
/// normal. Where it is below zero the ray came from outside: the face is the
/// front and the normal stays. In every other case, a NaN too, the face is
/// the back and the normal is turned round.
pub open spec fn spec_get_face(facing: Scalar, normal: Vec3) -> (Face, Vec3) {
    if facing.spec_lt(Scalar { bits: 0 }) {
        (Face::Front, normal)
    } else {
        (Face::Back, normal.spec_neg())
    }
}

/// The inner product of the ray's direction with the normal that
/// `get_face` hands back, given that turning a factor round turns the
/// product round.
pub open spec fn oriented_facing(facing: Scalar) -> Scalar {
    if facing.spec_lt(Scalar { bits: 0 }) {
        facing
    } else {
        facing.spec_neg()
    }
}

#[verifier::when_used_as_spec(spec_get_face)]
pub fn get_face(facing: Scalar, normal: Vec3) -> (r: (Face, Vec3))
    ensures
        r == spec_get_face(facing, normal),
        (r.0 == Face::Front) == (facing.rank() < 0 && !facing.spec_is_nan()),
{
    if facing.lt(Scalar { bits: 0 }) {
        (Face::Front, normal)
    } else {
        (Face::Back, normal.neg())
    }
}

/// After `get_face` the product of direction and normal is never above
/// zero, unless it was a NaN to begin with.
pub proof fn lemma_oriented_facing(facing: Scalar)
    requires
        !facing.spec_is_nan(),
    ensures
        oriented_facing(facing).spec_le(Scalar { bits: 0 }),
{
}

/// An object that reports a box around itself and can be tested against a
/// ray. The numbers behind both are the implementor's.
///
/// The three `_of` functions name what the three methods answer: an
/// implementation answers the same for the same arguments.
pub trait Hittable {
    /// What `bounds` answers.
    open spec fn bounds_of(&self) -> BoundingBox {
        arbitrary()
    }

    /// What `hit` answers.
    open spec fn hit_of(&self, ray: Ray, t_min: Scalar, t_max: Scalar) -> Option<
        (Scalar, HitRecord),
    > {
        arbitrary()
    }

    /// What `slabs` answers.
    open spec fn slabs_of(ray: Ray, bounds: BoundingBox) -> Slabs {
        arbitrary()
    }

    /// A box that holds the object.
    fn bounds(&self) -> (b: BoundingBox)
        ensures
            b == self.bounds_of(),
    ;

    /// The nearest place between `t_min` and `t_max` where the ray strikes
    /// the object, with the ray's parameter there.
    fn hit(&self, ray: &Ray, t_min: Scalar, t_max: Scalar) -> (r: Option<(Scalar, HitRecord)>)
        ensures
            r == self.hit_of(*ray, t_min, t_max),
    ;

    /// The parameters at which the ray crosses the planes of a box: on each
    /// axis the least corner's coordinate less the origin's, over the
    /// direction's, and the same for the greatest corner.
    fn slabs(ray: &Ray, bounds: &BoundingBox) -> (s: Slabs)
        ensures
            s == Self::slabs_of(*ray, *bounds),
    ;
}

} // verus!
