use vstd::prelude::*;
use crate::bounds::BoundingBox;
use crate::bvh::{clip, kept, Bvh, Hit};
use crate::key::{MaterialKey, NULL_ID};
use crate::scalar::{Scalar, ONE_BITS};
use crate::shape::{get_face, spec_get_face, HitRecord, Hittable, Ray};
use crate::vector::Vec3;

verus! {

/// Pattern of ten to the minus four: a ray whose determinant against a
/// triangle is smaller in magnitude runs along the triangle's plane.
pub const PARALLEL_BITS: u32 = 0x38d1_b717;

/// Whether a parameter lies outside the range from `t_min` to `t_max`.
pub open spec fn out_of_range(t: Scalar, t_min: Scalar, t_max: Scalar) -> bool {
    t.spec_lt(t_min) || t_max.spec_lt(t)
}

/// The parameter at which a ray strikes a sphere.
///
/// `disc` is the discriminant of the quadratic, `near` and `far` its
/// smaller and its larger root. There is no hit where the discriminant is
/// below zero. Else the smaller root is taken unless it is out of range,
/// then the larger unless it is out of range too.
pub open spec fn spec_sphere_root(
    disc: Scalar,
    near: Scalar,
    far: Scalar,
    t_min: Scalar,
    t_max: Scalar,
) -> Option<Scalar> {
    if disc.spec_lt(Scalar { bits: 0 }) {
        None
    } else if !out_of_range(near, t_min, t_max) {
        Some(near)
    } else if !out_of_range(far, t_min, t_max) {
        Some(far)
    } else {
        None
    }
}

#[verifier::when_used_as_spec(spec_sphere_root)]
pub fn sphere_root(disc: Scalar, near: Scalar, far: Scalar, t_min: Scalar, t_max: Scalar) -> (r:
    Option<Scalar>)
    ensures
        r == spec_sphere_root(disc, near, far, t_min, t_max),
{
    if disc.lt(Scalar { bits: 0 }) {
        return None;
    }
    let mut root = near;
    if root.lt(t_min) || t_max.lt(root) {
        root = far;
        if root.lt(t_min) || t_max.lt(root) {
            return None;
        }
    }
    Some(root)
}

/// A root between `t_min` and `t_lim`, if it is one.
pub open spec fn kept_root(root: Option<Scalar>, t_min: Scalar, t_lim: Scalar) -> Option<Scalar> {
    match root {
        Some(t) => if t_min.spec_le(t) && t.spec_le(t_lim) {
            root
        } else {
            None
        },
        None => None,
    }
}

/// A sphere answers a narrower range as it answers the whole range, less
/// a root beyond the narrower bound: the condition under which a tree finds
/// the nearest hit. The smaller root must not be above the larger.
pub proof fn lemma_sphere_root_narrows(
    disc: Scalar,
    near: Scalar,
    far: Scalar,
    t_min: Scalar,
    t_lim: Scalar,
    t_max: Scalar,
)
    requires
        t_min.spec_le(t_lim),
        t_lim.spec_le(t_max),
        near.spec_is_nan() || far.spec_is_nan() || near.rank() <= far.rank(),
    ensures
        kept_root(spec_sphere_root(disc, near, far, t_min, t_lim), t_min, t_lim) == kept_root(
            kept_root(spec_sphere_root(disc, near, far, t_min, t_max), t_min, t_max),
            t_min,
            t_lim,
        ),
{
}

/// Whether a ray strikes a triangle, by the quantities of Möller and
/// Trumbore: the determinant `det`, the coordinates `u` and `v` of the
/// point in the triangle, their sum, and the ray's parameter `time`.
///
/// The ray misses where the determinant is smaller in magnitude than ten to
/// the minus four, where `u` is below zero or above one, where `v` is below
/// zero or the sum above one, and where the parameter is out of range.
pub open spec fn spec_triangle_accepts(
    det: Scalar,
    u: Scalar,
    v: Scalar,
    sum: Scalar,
    time: Scalar,
    t_min: Scalar,
    t_max: Scalar,
) -> bool {
    let zero = Scalar { bits: 0 };
    let one = Scalar { bits: ONE_BITS };
    &&& !det.spec_abs().spec_lt(Scalar { bits: PARALLEL_BITS })
    &&& !(u.spec_lt(zero) || one.spec_lt(u))
    &&& !(v.spec_lt(zero) || one.spec_lt(sum))
    &&& !out_of_range(time, t_min, t_max)
}

#[verifier::when_used_as_spec(spec_triangle_accepts)]
pub fn triangle_accepts(
    det: Scalar,
    u: Scalar,
    v: Scalar,
    sum: Scalar,
    time: Scalar,
    t_min: Scalar,
    t_max: Scalar,
) -> (r: bool)
    ensures
        r == spec_triangle_accepts(det, u, v, sum, time, t_min, t_max),
{
    let zero = Scalar { bits: 0 };
    let one = Scalar { bits: ONE_BITS };
    if det.abs().lt(Scalar { bits: PARALLEL_BITS }) {
        return false;
    }
    if u.lt(zero) || one.lt(u) {
        return false;
    }
    if v.lt(zero) || one.lt(sum) {
        return false;
    }
    if time.lt(t_min) || t_max.lt(time) {
        return false;
    }
    true
}

/// A sphere.
#[derive(Clone, Copy, Debug, PartialEq, Eq, Structural)]
pub struct Sphere {
    pub center: Vec3,
    pub radius: Scalar,
    pub material_key: MaterialKey,
}

/// The quadratic of a ray against a sphere: its discriminant, and its
/// smaller and its larger root.
#[derive(Clone, Copy, Debug, PartialEq, Eq, Structural)]
pub struct Roots {
    pub disc: Scalar,
    pub near: Scalar,
    pub far: Scalar,
}

/// The place where a ray strikes a sphere: the point, the unit normal that
/// points out of the sphere there, and the inner product of the ray's
/// direction with that normal.
#[derive(Clone, Copy, Debug, PartialEq, Eq, Structural)]
pub struct Strike {
    pub point: Vec3,
    pub outward: Vec3,
    pub facing: Scalar,
}

/// The arithmetic of spheres, which the library leaves to its caller.
///
/// `bounds` gives the box from the centre less the radius to the centre
/// plus the radius. `roots` gives the quadratic of a ray against a sphere.
/// `strike` gives the place of a hit from the ray's parameter there. `uv`
/// gives the surface coordinates that belong to a unit normal.
pub struct Geometry<B, Q, S, U> {
    pub bounds: B,
    pub roots: Q,
    pub strike: S,
    pub uv: U,
}

impl<B, Q, S, U> Geometry<B, Q, S, U> where
    B: Fn(Sphere) -> BoundingBox,
    Q: Fn(Sphere, Ray) -> Roots,
    S: Fn(Sphere, Ray, Scalar) -> Strike,
    U: Fn(Vec3) -> (Scalar, Scalar),
 {
    /// Every function takes every argument.
    pub open spec fn total(self) -> bool {
        &&& forall|s: Sphere| call_requires(self.bounds, (s,))
        &&& forall|s: Sphere, r: Ray| call_requires(self.roots, (s, r))
        &&& forall|s: Sphere, r: Ray, t: Scalar| call_requires(self.strike, (s, r, t))
        &&& forall|n: Vec3| call_requires(self.uv, (n,))
    }
}

impl Sphere {
    pub fn new(center: Vec3, radius: Scalar, material_key: MaterialKey) -> (s: Sphere)
        ensures
            s == (Sphere { center, radius, material_key }),
    {
        Sphere { center, radius, material_key }
    }

    /// The record of a hit: the normal is turned against the ray, the face
    /// says whether it had to be turned, and the material is the sphere's.
    pub open spec fn record(self, strike: Strike, uv: (Scalar, Scalar)) -> HitRecord {
        HitRecord {
            point: strike.point,
            normal: spec_get_face(strike.facing, strike.outward).1,
            u: uv.0,
            v: uv.1,
            face: spec_get_face(strike.facing, strike.outward).0,
            material_key: self.material_key,
        }
    }

    /// Whether `hit` is what a test of the sphere against a ray can give.
    ///
    /// There is a hit where `spec_sphere_root` finds a root of the
    /// quadratic between `t_min` and `t_max`. The hit has that root for its
    /// parameter, and its record is made of the place that belongs to the
    /// root and of the surface coordinates that belong to the normal after
    /// it was turned against the ray.
    pub open spec fn hits<B, Q, S, U>(
        self,
        ray: Ray,
        t_min: Scalar,
        t_max: Scalar,
        geometry: Geometry<B, Q, S, U>,
        hit: Option<Hit>,
    ) -> bool where
        B: Fn(Sphere) -> BoundingBox,
        Q: Fn(Sphere, Ray) -> Roots,
        S: Fn(Sphere, Ray, Scalar) -> Strike,
        U: Fn(Vec3) -> (Scalar, Scalar),
     {
        exists|q: Roots|
            {
                &&& call_ensures(geometry.roots, (self, ray), q)
                &&& match spec_sphere_root(q.disc, q.near, q.far, t_min, t_max) {
                    None => hit is None,
                    Some(root) => exists|strike: Strike, uv: (Scalar, Scalar)|
                        {
                            &&& call_ensures(geometry.strike, (self, ray, root), strike)
                            &&& call_ensures(
                                geometry.uv,
                                (spec_get_face(strike.facing, strike.outward).1,),
                                uv,
                            )
                            &&& hit == Some((root, self.record(strike, uv)))
                        },
                }
            }
    }

    /// The box around the sphere.
    pub fn bounds<B, Q, S, U>(&self, geometry: &Geometry<B, Q, S, U>) -> (b: BoundingBox) where
        B: Fn(Sphere) -> BoundingBox,
        Q: Fn(Sphere, Ray) -> Roots,
        S: Fn(Sphere, Ray, Scalar) -> Strike,
        U: Fn(Vec3) -> (Scalar, Scalar),

        requires
            geometry.total(),
        ensures
            call_ensures(geometry.bounds, (*self,), b),
    {
        (geometry.bounds)(*self)
    }

    /// The nearest place between `t_min` and `t_max` where the ray strikes
    /// the sphere.
    pub fn ray_hit<B, Q, S, U>(
        &self,
        ray: &Ray,
        t_min: Scalar,
        t_max: Scalar,
        geometry: &Geometry<B, Q, S, U>,
    ) -> (hit: Option<Hit>) where
        B: Fn(Sphere) -> BoundingBox,
        Q: Fn(Sphere, Ray) -> Roots,
        S: Fn(Sphere, Ray, Scalar) -> Strike,
        U: Fn(Vec3) -> (Scalar, Scalar),

        requires
            geometry.total(),
        ensures
            self.hits(*ray, t_min, t_max, *geometry, hit),
            hit matches Some((t, rec)) ==> !out_of_range(t, t_min, t_max) && rec.material_key
                == self.material_key,
    {
        let q = (geometry.roots)(*self, *ray);
        match sphere_root(q.disc, q.near, q.far, t_min, t_max) {
            None => None,
            Some(root) => {
                let strike = (geometry.strike)(*self, *ray, root);
                let (face, normal) = get_face(strike.facing, strike.outward);
                let uv = (geometry.uv)(normal);
                let hit = Some(
                    (
                        root,
                        HitRecord {
                            point: strike.point,
                            normal,
                            u: uv.0,
                            v: uv.1,
                            face,
                            material_key: self.material_key,
                        },
                    ),
                );
                proof {
                    assert(hit == Some((root, self.record(strike, uv))));
                }
                hit
            },
        }
    }
}

/// A triangle, by its three corners.
#[derive(Clone, Copy, Debug, PartialEq, Eq, Structural)]
pub struct Triangle {
    pub v0: Vec3,
    pub v1: Vec3,
    pub v2: Vec3,
}

/// A ray against a triangle, by the quantities of Möller and Trumbore:
/// the determinant, the coordinates `u` and `v` of the point in the
/// triangle and their sum, the ray's parameter `time`, the point itself,
/// the unit normal of the triangle, and the inner product of the ray's
/// direction with that normal.
#[derive(Clone, Copy, Debug, PartialEq, Eq, Structural)]
pub struct Crossing {
    pub det: Scalar,
    pub u: Scalar,
    pub v: Scalar,
    pub sum: Scalar,
    pub time: Scalar,
    pub point: Vec3,
    pub normal: Vec3,
    pub facing: Scalar,
}

/// The point whose coordinates are the three patterns.
pub open spec fn point_of(p: [u32; 3]) -> Vec3 {
    Vec3 { x: Scalar { bits: p[0] }, y: Scalar { bits: p[1] }, z: Scalar { bits: p[2] } }
}

impl Triangle {
    /// The least box around the three corners.
    pub open spec fn spec_bounds(self) -> BoundingBox {
        BoundingBox {
            min: self.v0.spec_min(self.v1).spec_min(self.v2),
            max: self.v0.spec_max(self.v1).spec_max(self.v2),
        }
    }

    pub fn new(v0: Vec3, v1: Vec3, v2: Vec3) -> (t: Triangle)
        ensures
            t == (Triangle { v0, v1, v2 }),
    {
        Triangle { v0, v1, v2 }
    }

    /// The triangles over a list of points, three points to a triangle in
    /// the order of the list. Points left over at the end make none.
    pub fn vec_from(v: &[[u32; 3]]) -> (triangles: Vec<Triangle>)
        ensures
            triangles@.len() == v@.len() / 3,
            forall|i: int|
                0 <= i < triangles@.len() ==> #[trigger] triangles@[i] == (Triangle {
                    v0: point_of(v@[3 * i]),
                    v1: point_of(v@[3 * i + 1]),
                    v2: point_of(v@[3 * i + 2]),
                }),
    {
        let n: usize = v.len();
        let count: usize = n / 3;
        let mut triangles: Vec<Triangle> = Vec::with_capacity(count);
        let mut i: usize = 0;
        while i < count
            invariant
                i <= count,
                count == v@.len() / 3,
                n == v@.len(),
                3 * count <= n,
                triangles@.len() == i,
                forall|k: int|
                    0 <= k < i ==> #[trigger] triangles@[k] == (Triangle {
                        v0: point_of(v@[3 * k]),
                        v1: point_of(v@[3 * k + 1]),
                        v2: point_of(v@[3 * k + 2]),
                    }),
            decreases count - i,
        {
            let a: [u32; 3] = v[3 * i];
            let b: [u32; 3] = v[3 * i + 1];
            let c: [u32; 3] = v[3 * i + 2];
            triangles.push(
                Triangle {
                    v0: Vec3::from_bits(a[0], a[1], a[2]),
                    v1: Vec3::from_bits(b[0], b[1], b[2]),
                    v2: Vec3::from_bits(c[0], c[1], c[2]),
                },
            );
            i = i + 1;
        }
        triangles
    }

    pub fn bounds(&self) -> (b: BoundingBox)
        ensures
            b == self.spec_bounds(),
    {
        BoundingBox {
            min: self.v0.min(self.v1).min(self.v2),
            max: self.v0.max(self.v1).max(self.v2),
        }
    }

    /// What a test of the triangle answers, given the ray's crossing of
    /// the triangle's plane: a hit where `spec_triangle_accepts` lets the
    /// crossing pass, with the normal turned against the ray and the null
    /// handle for a material.
    pub open spec fn spec_hit(crossing: Crossing, t_min: Scalar, t_max: Scalar) -> Option<Hit> {
        if spec_triangle_accepts(
            crossing.det,
            crossing.u,
            crossing.v,
            crossing.sum,
            crossing.time,
            t_min,
            t_max,
        ) {
            Some(
                (
                    crossing.time,
                    HitRecord {
                        point: crossing.point,
                        normal: spec_get_face(crossing.facing, crossing.normal).1,
                        u: crossing.u,
                        v: crossing.v,
                        face: spec_get_face(crossing.facing, crossing.normal).0,
                        material_key: MaterialKey { id: NULL_ID },
                    },
                ),
            )
        } else {
            None
        }
    }

    /// A triangle answers a narrower range as it answers the whole range,
    /// less a hit beyond the narrower bound: the condition under which a tree
    /// finds the nearest hit.
    pub proof fn lemma_hit_narrows(crossing: Crossing, t_min: Scalar, t_lim: Scalar, t_max: Scalar)
        requires
            t_min.spec_le(t_lim),
            t_lim.spec_le(t_max),
        ensures
            kept(Self::spec_hit(crossing, t_min, t_lim), t_min, t_lim) == clip(
                kept(Self::spec_hit(crossing, t_min, t_max), t_min, t_max),
                t_lim,
            ),
    {
    }

    /// The place between `t_min` and `t_max` where the ray strikes the
    /// triangle; `crossing` is the arithmetic of the ray against the
    /// triangle's plane.
    pub fn ray_hit<M: Fn(Triangle, Ray) -> Crossing>(
        &self,
        ray: &Ray,
        t_min: Scalar,
        t_max: Scalar,
        crossing: &M,
    ) -> (hit: Option<Hit>)
        requires
            forall|t: Triangle, r: Ray| call_requires(*crossing, (t, r)),
        ensures
            exists|c: Crossing|
                call_ensures(*crossing, (*self, *ray), c) && hit == Self::spec_hit(c, t_min, t_max),
            hit matches Some((t, _)) ==> !out_of_range(t, t_min, t_max),
    {
        let c = crossing(*self, *ray);
        let hit = if triangle_accepts(c.det, c.u, c.v, c.sum, c.time, t_min, t_max) {
            let (face, normal) = get_face(c.facing, c.normal);
            Some(
                (
                    c.time,
                    HitRecord {
                        point: c.point,
                        normal,
                        u: c.u,
                        v: c.v,
                        face,
                        material_key: MaterialKey { id: NULL_ID },
                    },
                ),
            )
        } else {
            None
        };
        proof {
            assert(hit == Self::spec_hit(c, t_min, t_max));
        }
        hit
    }

    /// The box of a triangle whose corners hold no NaN is well formed and
    /// holds the three corners.
    pub proof fn lemma_bounds(self)
        requires
            self.v0.is_numeric(),
            self.v1.is_numeric(),
            self.v2.is_numeric(),
        ensures
            self.spec_bounds().well_formed(),
            self.spec_bounds().min.all_le(self.v0) && self.v0.all_le(self.spec_bounds().max),
            self.spec_bounds().min.all_le(self.v1) && self.v1.all_le(self.spec_bounds().max),
            self.spec_bounds().min.all_le(self.v2) && self.v2.all_le(self.spec_bounds().max),
    {
    }
}

/// Whether each corner named by the triples is one of `count` corners.
pub open spec fn indices_fit(count: nat, indices: Seq<(usize, usize, usize)>) -> bool {
    forall|i: int|
        0 <= i < indices.len() ==> (#[trigger] indices[i]).0 < count && indices[i].1 < count
            && indices[i].2 < count
}

/// Decides `indices_fit`.
pub fn check_indices(count: usize, indices: &Vec<(usize, usize, usize)>) -> (r: bool)
    ensures
        r == indices_fit(count as nat, indices@),
{
    let mut i: usize = 0;
    while i < indices.len()
        invariant
            i <= indices@.len(),
            indices_fit(count as nat, indices@.subrange(0, i as int)),
        decreases indices@.len() - i,
    {
        let (a, b, c) = indices[i];
        if a >= count || b >= count || c >= count {
            return false;
        }
        i = i + 1;
    }
    assert(indices@.subrange(0, i as int) =~= indices@);
    true
}

/// The triples of a flat list of corner numbers, three numbers to a
/// triangle in the order of the list.
pub fn index_triples(flat: &[u32]) -> (triples: Vec<(usize, usize, usize)>)
    requires
        flat@.len() % 3 == 0,
    ensures
        triples@.len() == flat@.len() / 3,
        forall|i: int|
            0 <= i < triples@.len() ==> #[trigger] triples@[i] == (
                flat@[3 * i] as usize,
                flat@[3 * i + 1] as usize,
                flat@[3 * i + 2] as usize,
            ),
{
    let n: usize = flat.len();
    let count: usize = n / 3;
    let mut triples: Vec<(usize, usize, usize)> = Vec::with_capacity(count);
    let mut i: usize = 0;
    while i < count
        invariant
            i <= count,
            n == flat@.len(),
            3 * count == n,
            triples@.len() == i,
            forall|k: int|
                0 <= k < i ==> #[trigger] triples@[k] == (
                    flat@[3 * k] as usize,
                    flat@[3 * k + 1] as usize,
                    flat@[3 * k + 2] as usize,
                ),
        decreases count - i,
    {
        triples.push((flat[3 * i] as usize, flat[3 * i + 1] as usize, flat[3 * i + 2] as usize));
        i = i + 1;
    }
    triples
}

/// Triangles over a shared list of corners, all of one material.
#[derive(Debug)]
pub struct Mesh {
    vertices: Vec<Vec3>,
    indices: Vec<(usize, usize, usize)>,
    material_key: MaterialKey,
}

impl Mesh {
    #[verifier::type_invariant]
    spec fn inv(self) -> bool {
        self.well_formed()
    }

    /// Every triangle names corners that the mesh has.
    pub closed spec fn well_formed(self) -> bool {
        indices_fit(self.vertices@.len(), self.indices@)
    }

    pub closed spec fn vertices(self) -> Seq<Vec3> {
        self.vertices@
    }

    pub closed spec fn indices(self) -> Seq<(usize, usize, usize)> {
        self.indices@
    }

    pub closed spec fn spec_material_key(self) -> MaterialKey {
        self.material_key
    }

    /// The triangle with the given number.
    pub open spec fn spec_triangle(self, i: int) -> Triangle {
        Triangle {
            v0: self.vertices()[self.indices()[i].0 as int],
            v1: self.vertices()[self.indices()[i].1 as int],
            v2: self.vertices()[self.indices()[i].2 as int],
        }
    }

    /// A mesh over corners and triples of corner numbers.
    pub fn new(
        vertices: Vec<Vec3>,
        indices: Vec<(usize, usize, usize)>,
        material_key: MaterialKey,
    ) -> (mesh: Mesh)
        requires
            indices_fit(vertices@.len(), indices@),
        ensures
            mesh.well_formed(),
            mesh.vertices() == vertices@,
            mesh.indices() == indices@,
            mesh.spec_material_key() == material_key,
    {
        Mesh { vertices, indices, material_key }
    }

    /// The number of triangles.
    pub fn len(&self) -> (n: usize)
        ensures
            n == self.indices().len(),
    {
        self.indices.len()
    }

    pub fn material_key(&self) -> (key: MaterialKey)
        ensures
            key == self.spec_material_key(),
    {
        self.material_key
    }

    /// The triangle with the given number, if the mesh has one.
    pub fn triangle(&self, i: usize) -> (t: Option<Triangle>)
        ensures
            self.well_formed(),
            t == (if i < self.indices().len() {
                Some(self.spec_triangle(i as int))
            } else {
                None
            }),
    {
        proof {
            use_type_invariant(self);
        }
        if i < self.indices.len() {
            let (a, b, c) = self.indices[i];
            Some(Triangle { v0: self.vertices[a], v1: self.vertices[b], v2: self.vertices[c] })
        } else {
            None
        }
    }

    /// The triangles, in their order.
    pub fn triangles(&self) -> (list: Vec<Triangle>)
        ensures
            self.well_formed(),
            list@.len() == self.indices().len(),
            forall|i: int| 0 <= i < list@.len() ==> #[trigger] list@[i] == self.spec_triangle(i),
    {
        proof {
            use_type_invariant(self);
        }
        let n: usize = self.indices.len();
        let mut list: Vec<Triangle> = Vec::with_capacity(n);
        let mut i: usize = 0;
        while i < n
            invariant
                i <= n,
                n == self.indices@.len(),
                self.well_formed(),
                list@.len() == i,
                forall|k: int| 0 <= k < i ==> #[trigger] list@[k] == self.spec_triangle(k),
            decreases n - i,
        {
            let (a, b, c) = self.indices[i];
            list.push(
                Triangle { v0: self.vertices[a], v1: self.vertices[b], v2: self.vertices[c] },
            );
            i = i + 1;
        }
        list
    }
}

/// The hit with the given material in place of its own.
pub open spec fn with_material(hit: Option<Hit>, material_key: MaterialKey) -> Option<Hit> {
    match hit {
        Some((t, rec)) => Some(
            (
                t,
                HitRecord {
                    point: rec.point,
                    normal: rec.normal,
                    u: rec.u,
                    v: rec.v,
                    face: rec.face,
                    material_key,
                },
            ),
        ),
        None => None,
    }
}

/// A thing of the scene: a sphere, or a mesh of faces under one material
/// with a tree over them.
pub enum Primative<F: Hittable> {
    Sphere(Sphere),
    Mesh { bvh: Bvh<F>, material_key: MaterialKey },
}

impl<F: Hittable> Primative<F> {
    pub fn sphere(center: Vec3, radius: Scalar, material_key: MaterialKey) -> (p: Primative<F>)
        ensures
            p == Primative::<F>::Sphere(Sphere { center, radius, material_key }),
    {
        Primative::Sphere(Sphere::new(center, radius, material_key))
    }

    /// The mesh of the given faces, with the tree built over them.
    pub fn mesh(triangles: Vec<F>, material_key: MaterialKey) -> (p: Primative<F>)
        ensures
            p matches Primative::Mesh { bvh, material_key: key } && key == material_key
                && bvh.well_formed() && bvh.objects() == triangles@,
    {
        Primative::Mesh { bvh: Bvh::build(triangles), material_key }
    }

    /// The material of the thing.
    pub open spec fn spec_material_key(self) -> MaterialKey {
        match self {
            Primative::Sphere(s) => s.material_key,
            Primative::Mesh { material_key, .. } => material_key,
        }
    }

    /// Whether `b` can be the box of the thing: a sphere's box is what the
    /// geometry gives, a mesh's box is that of its tree.
    pub open spec fn bounded_by<B, Q, S, U>(
        self,
        geometry: Geometry<B, Q, S, U>,
        b: BoundingBox,
    ) -> bool where
        B: Fn(Sphere) -> BoundingBox,
        Q: Fn(Sphere, Ray) -> Roots,
        S: Fn(Sphere, Ray, Scalar) -> Strike,
        U: Fn(Vec3) -> (Scalar, Scalar),
     {
        match self {
            Primative::Sphere(s) => call_ensures(geometry.bounds, (s,), b),
            Primative::Mesh { bvh, .. } => b == bvh.hull(),
        }
    }

    /// Whether `hit` is what a test of the thing against a ray can give: a
    /// hit of the sphere, or the nearest hit in the mesh's tree; either way
    /// with the material of the thing.
    pub open spec fn hits<B, Q, S, U>(
        self,
        ray: Ray,
        t_min: Scalar,
        t_max: Scalar,
        geometry: Geometry<B, Q, S, U>,
        hit: Option<Hit>,
    ) -> bool where
        B: Fn(Sphere) -> BoundingBox,
        Q: Fn(Sphere, Ray) -> Roots,
        S: Fn(Sphere, Ray, Scalar) -> Strike,
        U: Fn(Vec3) -> (Scalar, Scalar),
     {
        match self {
            Primative::Sphere(s) => s.hits(ray, t_min, t_max, geometry, hit),
            Primative::Mesh { bvh, material_key } => hit == with_material(
                bvh.closest(ray, t_min, t_max),
                material_key,
            ),
        }
    }

    pub fn material_key(&self) -> (key: MaterialKey)
        ensures
            key == self.spec_material_key(),
    {
        match self {
            Primative::Sphere(s) => s.material_key,
            Primative::Mesh { material_key, .. } => *material_key,
        }
    }

    /// The box around the thing.
    pub fn bounds<B, Q, S, U>(&self, geometry: &Geometry<B, Q, S, U>) -> (b: BoundingBox) where
        B: Fn(Sphere) -> BoundingBox,
        Q: Fn(Sphere, Ray) -> Roots,
        S: Fn(Sphere, Ray, Scalar) -> Strike,
        U: Fn(Vec3) -> (Scalar, Scalar),

        requires
            geometry.total(),
        ensures
            self.bounded_by(*geometry, b),
    {
        match self {
            Primative::Sphere(s) => s.bounds(geometry),
            Primative::Mesh { bvh, .. } => bvh.bounds(),
        }
    }

    /// The nearest place between `t_min` and `t_max` where the ray strikes
    /// the thing.
    pub fn ray_hit<B, Q, S, U>(
        &self,
        ray: &Ray,
        t_min: Scalar,
        t_max: Scalar,
        geometry: &Geometry<B, Q, S, U>,
    ) -> (hit: Option<Hit>) where
        B: Fn(Sphere) -> BoundingBox,
        Q: Fn(Sphere, Ray) -> Roots,
        S: Fn(Sphere, Ray, Scalar) -> Strike,
        U: Fn(Vec3) -> (Scalar, Scalar),

        requires
            geometry.total(),
        ensures
            self.hits(*ray, t_min, t_max, *geometry, hit),
            hit matches Some((t, rec)) ==> !out_of_range(t, t_min, t_max) && rec.material_key
                == self.spec_material_key(),
    {
        match self {
            Primative::Sphere(s) => s.ray_hit(ray, t_min, t_max, geometry),
            Primative::Mesh { bvh, material_key } => {
                match bvh.ray_hit(ray, t_min, t_max) {
                    Some((t, rec)) => Some(
                        (
                            t,
                            HitRecord {
                                point: rec.point,
                                normal: rec.normal,
                                u: rec.u,
                                v: rec.v,
                                face: rec.face,
                                material_key: *material_key,
                            },
                        ),
                    ),
                    None => None,
                }
            },
        }
    }
}

impl<F: Hittable> Default for Primative<F> {
    /// The unit sphere at the origin, its material the null handle.
    fn default() -> (p: Primative<F>)
        ensures
            p == Primative::<F>::Sphere(
                Sphere {
                    center: Vec3::spec_splat(Scalar { bits: 0 }),
                    radius: Scalar { bits: ONE_BITS },
                    material_key: MaterialKey { id: NULL_ID },
                },
            ),
    {
        Primative::Sphere(
            Sphere {
                center: Vec3::splat(Scalar { bits: 0 }),
                radius: Scalar { bits: ONE_BITS },
                material_key: MaterialKey { id: NULL_ID },
            },
        )
    }
}

} // verus!
