use vstd::prelude::*;
use crate::bvh::{Bvh, Hit};
use crate::image::Rgba;
use crate::key::{MaterialKey, TextureKey, NULL_ID};
use crate::material::{Material, Optics, Reflection, Refraction, ScatterResult};
use crate::noise::Noise;
use crate::pool::{canonical, Pool, POOL_LIMIT};
use crate::scalar::{Scalar, INFINITY_BITS};
use crate::shape::{HitRecord, Hittable, Ray};
use crate::texture::{nests, pool_settles, textures_nest, Texture};
use crate::vector::Vec3;

verus! {

/// Pattern of a thousandth: the least parameter at which a ray of the
/// world counts as striking, so that it does not strike the surface it
/// leaves.
pub const T_MIN_BITS: u32 = 0x3a83_126f;

/// Gathers the textures, materials and objects of a scene.
pub struct WorldBuilder<T> {
    textures: Pool<Texture>,
    materials: Pool<Material>,
    hittables: Vec<T>,
}

impl<T> WorldBuilder<T> {
    /// Both pools are well formed.
    pub closed spec fn well_formed(&self) -> bool {
        self.textures.well_formed() && self.materials.well_formed()
    }

    /// The textures so far, by the numbers of their handles.
    pub closed spec fn textures(&self) -> Map<u64, Texture> {
        self.textures@
    }

    /// The materials so far, by the numbers of their handles.
    pub closed spec fn materials(&self) -> Map<u64, Material> {
        self.materials@
    }

    /// The objects so far, in the order in which they came.
    pub closed spec fn hittables(&self) -> Seq<T> {
        self.hittables@
    }

    /// The textures so far, in the order in which they came.
    pub closed spec fn texture_list(&self) -> Seq<Texture> {
        self.textures.items()
    }

    /// No checker among the textures leads back to itself.
    pub open spec fn textures_settle(&self) -> bool {
        pool_settles(self.textures())
    }

    /// The number of textures so far.
    pub closed spec fn texture_count(&self) -> nat {
        self.textures.spec_len()
    }

    /// The number of materials so far.
    pub closed spec fn material_count(&self) -> nat {
        self.materials.spec_len()
    }

    pub fn new() -> (builder: WorldBuilder<T>)
        ensures
            builder.well_formed(),
            builder.textures() == Map::<u64, Texture>::empty(),
            builder.materials() == Map::<u64, Material>::empty(),
            builder.hittables() == Seq::<T>::empty(),
            builder.texture_count() == 0,
            builder.material_count() == 0,
    {
        WorldBuilder { textures: Pool::new(), materials: Pool::new(), hittables: Vec::new() }
    }

    /// The number of textures so far.
    pub fn textures_len(&self) -> (n: usize)
        ensures
            n == self.texture_count(),
    {
        self.textures.len()
    }

    /// The number of materials so far.
    pub fn materials_len(&self) -> (n: usize)
        ensures
            n == self.material_count(),
    {
        self.materials.len()
    }

    /// Adds a texture and hands out the handle under which it is found.
    pub fn push_texture(&mut self, texture: Texture) -> (key: TextureKey)
        requires
            old(self).well_formed(),
            old(self).texture_count() < POOL_LIMIT,
        ensures
            final(self).well_formed(),
            !old(self).textures().contains_key(key.id),
            key.id != NULL_ID,
            final(self).textures() == old(self).textures().insert(key.id, texture),
            final(self).texture_list() == old(self).texture_list().push(texture),
            final(self).texture_count() == old(self).texture_count() + 1,
            final(self).materials() == old(self).materials(),
            final(self).material_count() == old(self).material_count(),
            final(self).hittables() == old(self).hittables(),
    {
        TextureKey { id: self.textures.insert(texture) }
    }

    /// Adds a material and hands out the handle under which it is found.
    pub fn push_material(&mut self, material: Material) -> (key: MaterialKey)
        requires
            old(self).well_formed(),
            old(self).material_count() < POOL_LIMIT,
        ensures
            final(self).well_formed(),
            !old(self).materials().contains_key(key.id),
            key.id != NULL_ID,
            final(self).materials() == old(self).materials().insert(key.id, material),
            final(self).material_count() == old(self).material_count() + 1,
            final(self).textures() == old(self).textures(),
            final(self).texture_count() == old(self).texture_count(),
            final(self).hittables() == old(self).hittables(),
    {
        MaterialKey { id: self.materials.insert(material) }
    }

    /// Whether each texture so far is followed to its end through at most
    /// `depth` checkers. Textures of which this holds settle.
    pub fn textures_nest(&self, depth: usize) -> (r: bool)
        requires
            self.well_formed(),
        ensures
            r == (forall|i: int|
                0 <= i < self.texture_list().len() ==> nests(
                    self.textures(),
                    #[trigger] self.texture_list()[i],
                    depth as nat,
                )),
            r ==> self.textures_settle(),
    {
        let r = textures_nest(&self.textures, depth);
        proof {
            let list = self.texture_list();
            if r {
                assert forall|i: int| 0 <= i < list.len() implies nests(
                    self.textures(),
                    #[trigger] list[i],
                    depth as nat,
                ) by {
                    assert(list[i] == self.textures.items()[i]);
                }
            } else {
                let i = choose|i: int|
                    0 <= i < self.textures.items().len() && !nests(
                        self.textures@,
                        #[trigger] self.textures.items()[i],
                        depth as nat,
                    );
                assert(!nests(self.textures(), list[i], depth as nat));
            }
        }
        r
    }

    /// Adds an object.
    pub fn push_hittable(&mut self, primative: T)
        ensures
            final(self).well_formed() == old(self).well_formed(),
            final(self).hittables() == old(self).hittables().push(primative),
            final(self).textures() == old(self).textures(),
            final(self).texture_count() == old(self).texture_count(),
            final(self).materials() == old(self).materials(),
            final(self).material_count() == old(self).material_count(),
    {
        self.hittables.push(primative)
    }
}

impl<T> Default for WorldBuilder<T> {
    fn default() -> (builder: WorldBuilder<T>)
        ensures
            builder.well_formed(),
            builder.textures() == Map::<u64, Texture>::empty(),
            builder.materials() == Map::<u64, Material>::empty(),
            builder.hittables() == Seq::<T>::empty(),
            builder.texture_count() == 0,
            builder.material_count() == 0,
    {
        WorldBuilder::new()
    }
}

/// What a ray of the world comes to before any light is reckoned.
#[derive(Clone, Copy, Debug, PartialEq, Eq, Structural)]
pub enum Trace {
    /// The budget of bounces is used up: the ray brings no light.
    Exhausted,
    /// The ray strikes nothing and brings the light of the background.
    Escaped,
    /// The ray strikes a surface whose material the world does not hold.
    Unresolved,
    /// The ray strikes a surface with a material.
    Surface { time: Scalar, record: HitRecord, material: Material },
}

impl Trace {
    /// The light of a ray that goes no further: black where the budget is
    /// used up, white from the background, magenta for a material that is
    /// missing. The light from a surface is the caller's to reckon.
    pub open spec fn spec_color(self) -> Option<Rgba> {
        match self {
            Trace::Exhausted => Some(Rgba::spec_zero()),
            Trace::Escaped => Some(Rgba::spec_one()),
            Trace::Unresolved => Some(Rgba::spec_missing()),
            Trace::Surface { .. } => None,
        }
    }

    #[verifier::when_used_as_spec(spec_color)]
    pub fn color(self) -> (c: Option<Rgba>)
        ensures
            c == self.spec_color(),
    {
        match self {
            Trace::Exhausted => Some(Rgba::zero()),
            Trace::Escaped => Some(Rgba::one()),
            Trace::Unresolved => Some(Rgba::missing()),
            Trace::Surface { .. } => None,
        }
    }
}

/// What a ray comes to, given the bounces left, the nearest hit and the
/// material found under the hit's handle.
pub open spec fn classify(
    depth: usize,
    found: Option<Hit>,
    materials: Map<u64, Material>,
) -> Trace {
    if depth == 0 {
        Trace::Exhausted
    } else {
        match found {
            None => Trace::Escaped,
            Some((time, record)) => {
                let id = canonical(record.material_key.id);
                if materials.contains_key(id) {
                    Trace::Surface { time, record, material: materials[id] }
                } else {
                    Trace::Unresolved
                }
            },
        }
    }
}

/// Whether `light` is what a ray of the world can bring with `depth`
/// bounces left.
///
/// A ray that goes no further brings the light of `Trace::spec_color`. At a
/// surface the material says what it gives off and what becomes of the ray.
/// A ray that is absorbed brings what the surface gives off. A ray that
/// goes on brings what `combine` makes of three things: what the surface
/// gives off, the tint, and the light that the scattered ray brings with one
/// bounce less.
pub open spec fn radiance<T: Hittable, Z, N, D, R, G, C>(
    world: World<T>,
    ray: Ray,
    depth: usize,
    optics: Optics<Z, N, D, R, G, C>,
    light: Rgba,
) -> bool where
    Z: Fn(Scalar, Vec3) -> Scalar,
    N: Fn(&Noise, Scalar, Vec3) -> Rgba,
    D: Fn(HitRecord) -> Vec3,
    R: Fn(Ray, HitRecord, Scalar) -> Reflection,
    G: Fn(Ray, HitRecord, Scalar) -> Refraction,
    C: Fn(Rgba, Rgba, Rgba) -> Rgba,

    decreases depth,
{
    if depth == 0 {
        light == Rgba::spec_zero()
    } else {
        match classify(depth, world.spec_hit(ray), world.materials()) {
            Trace::Surface { record, material, .. } => exists|
                emitted: Rgba,
                scattered: ScatterResult,
            |
                {
                    &&& material.emits(
                        record.u,
                        record.v,
                        record.point,
                        world.spec_texture_pool(),
                        optics,
                        emitted,
                    )
                    &&& material.scatters(ray, record, world.spec_texture_pool(), optics, scattered)
                    &&& match scattered {
                        ScatterResult::Absorbed => light == emitted,
                        ScatterResult::Scattered { ray_out, color } => exists|incoming: Rgba|
                            radiance(world, ray_out, (depth - 1) as usize, optics, incoming)
                                && call_ensures(optics.combine, (emitted, color, incoming), light),
                    }
                },
            other => Some(light) == other.spec_color(),
        }
    }
}

/// A ray with no bounce left brings black, and a ray that strikes nothing
/// brings the white of the background, whatever the optics are.
pub proof fn lemma_radiance_without_surface<T: Hittable, Z, N, D, R, G, C>(
    world: World<T>,
    ray: Ray,
    depth: usize,
    optics: Optics<Z, N, D, R, G, C>,
    light: Rgba,
) where
    Z: Fn(Scalar, Vec3) -> Scalar,
    N: Fn(&Noise, Scalar, Vec3) -> Rgba,
    D: Fn(HitRecord) -> Vec3,
    R: Fn(Ray, HitRecord, Scalar) -> Reflection,
    G: Fn(Ray, HitRecord, Scalar) -> Refraction,
    C: Fn(Rgba, Rgba, Rgba) -> Rgba,

    requires
        radiance(world, ray, depth, optics, light),
        depth == 0 || world.spec_hit(ray) is None,
    ensures
        depth == 0 ==> light == Rgba::spec_zero(),
        depth != 0 ==> light == Rgba::spec_one(),
{
}

/// A scene ready to be rendered: its textures, its materials and the tree
/// over its objects. Nothing of it changes any more.
pub struct World<T: Hittable> {
    textures: Pool<Texture>,
    materials: Pool<Material>,
    bvh: Bvh<T>,
}

impl<T: Hittable> World<T> {
    #[verifier::type_invariant]
    spec fn inv(self) -> bool {
        &&& self.textures.well_formed()
        &&& self.materials.well_formed()
        &&& pool_settles(self.textures@)
    }

    pub open spec fn textures(&self) -> Map<u64, Texture> {
        self.spec_texture_pool()@
    }

    /// The pool of textures.
    pub closed spec fn spec_texture_pool(&self) -> Pool<Texture> {
        self.textures
    }

    pub closed spec fn materials(&self) -> Map<u64, Material> {
        self.materials@
    }

    /// The tree over the objects.
    pub closed spec fn tree(&self) -> Bvh<T> {
        self.bvh
    }

    /// The nearest hit of a ray of the world.
    pub open spec fn spec_hit(&self, ray: Ray) -> Option<Hit> {
        self.tree().closest(ray, Scalar { bits: T_MIN_BITS }, Scalar { bits: INFINITY_BITS })
    }

    /// Builds the tree over the objects gathered and freezes the scene.
    pub fn from(builder: WorldBuilder<T>) -> (world: World<T>)
        requires
            builder.well_formed(),
            builder.textures_settle(),
        ensures
            world.textures() == builder.textures(),
            world.spec_texture_pool().well_formed(),
            world.materials() == builder.materials(),
            world.tree().well_formed(),
            world.tree().objects() == builder.hittables(),
    {
        World {
            textures: builder.textures,
            materials: builder.materials,
            bvh: Bvh::build(builder.hittables),
        }
    }

    /// The pool of textures.
    pub fn texture_pool(&self) -> (pool: &Pool<Texture>)
        ensures
            pool.well_formed(),
            pool_settles(pool@),
            *pool == self.spec_texture_pool(),
    {
        proof {
            use_type_invariant(self);
        }
        &self.textures
    }

    /// The material under a handle, if the world holds one.
    pub fn material(&self, key: MaterialKey) -> (m: Option<Material>)
        ensures
            m == (if self.materials().contains_key(canonical(key.id)) {
                Some(self.materials()[canonical(key.id)])
            } else {
                None
            }),
    {
        proof {
            use_type_invariant(self);
        }
        match self.materials.get(key.id) {
            Some(m) => Some(*m),
            None => None,
        }
    }

    /// The nearest place where a ray strikes an object of the world, from
    /// a thousandth of the ray's direction on.
    pub fn hit(&self, ray: &Ray) -> (found: Option<Hit>)
        ensures
            self.tree().well_formed(),
            found == self.spec_hit(*ray),
    {
        self.bvh.ray_hit(ray, Scalar { bits: T_MIN_BITS }, Scalar { bits: INFINITY_BITS })
    }

    /// The light that a ray brings with `depth` bounces left.
    pub fn ray_color<Z, N, D, R, G, C>(
        &self,
        ray_in: &Ray,
        optics: &Optics<Z, N, D, R, G, C>,
        depth: usize,
    ) -> (light: Rgba) where
        Z: Fn(Scalar, Vec3) -> Scalar,
        N: Fn(&Noise, Scalar, Vec3) -> Rgba,
        D: Fn(HitRecord) -> Vec3,
        R: Fn(Ray, HitRecord, Scalar) -> Reflection,
        G: Fn(Ray, HitRecord, Scalar) -> Refraction,
        C: Fn(Rgba, Rgba, Rgba) -> Rgba,

        requires
            optics.total(),
        ensures
            radiance(*self, *ray_in, depth, *optics, light),
        decreases depth,
    {
        match self.trace(ray_in, depth) {
            Trace::Exhausted => Rgba::zero(),
            Trace::Escaped => Rgba::one(),
            Trace::Unresolved => Rgba::missing(),
            Trace::Surface { record, material, .. } => {
                let textures = self.texture_pool();
                let emitted = material.emit(record.u, record.v, record.point, textures, optics);
                match material.scatter(ray_in, &record, textures, optics) {
                    ScatterResult::Absorbed => emitted,
                    ScatterResult::Scattered { ray_out, color } => {
                        let incoming = self.ray_color(&ray_out, optics, depth - 1);
                        (optics.combine)(emitted, color, incoming)
                    },
                }
            },
        }
    }

    /// What a ray comes to with `depth` bounces left.
    pub fn trace(&self, ray: &Ray, depth: usize) -> (t: Trace)
        ensures
            t == classify(depth, self.spec_hit(*ray), self.materials()),
    {
        if depth == 0 {
            return Trace::Exhausted;
        }
        match self.hit(ray) {
            None => Trace::Escaped,
            Some((time, record)) => match self.material(record.material_key) {
                Some(material) => Trace::Surface { time, record, material },
                None => Trace::Unresolved,
            },
        }
    }
}

/// A scene and the camera that looks at it.
///
/// The camera is a function: from a pixel's column and row and the
/// picture's width and height to the ray that is sent through the pixel.
pub struct Scene<T: Hittable, G> {
    pub world: World<T>,
    pub sampler: G,
}

impl<T: Hittable, G> Scene<T, G> {
    pub fn new(world: World<T>, sampler: G) -> (scene: Scene<T, G>)
        ensures
            scene.world == world,
            scene.sampler == sampler,
    {
        Scene { world, sampler }
    }
}

} // verus!
