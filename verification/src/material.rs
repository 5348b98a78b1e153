use vstd::prelude::*;
use crate::image::Rgba;
use crate::key::{TextureKey, NULL_ID};
use crate::noise::Noise;
use crate::pool::Pool;
use crate::scalar::{Scalar, ONE_BITS};
use crate::shape::{HitRecord, Ray};
use crate::texture::{gives, pool_settles, Texture};
use crate::vector::{near_zero, spec_near_zero, Vec3};

verus! {

/// What becomes of a ray at a surface.
#[derive(Clone, Copy, Debug, PartialEq, Eq, Structural)]
pub enum ScatterResult {
    /// The ray goes on as `ray_out`, its light tinted by `color`.
    Scattered { ray_out: Ray, color: Rgba },
    /// The ray ends here.
    Absorbed,
}

/// How a surface treats light.
#[derive(Clone, Copy, Debug, PartialEq, Eq, Structural)]
pub enum Material {
    /// A matt surface.
    Lambertian { albedo: TextureKey },
    /// A mirror, blurred by `fuzz`.
    Metal { albedo: TextureKey, fuzz: Scalar },
    /// Glass with the given index of refraction.
    Dielectric { ir: Scalar },
    /// A surface that shines and scatters nothing.
    DiffuseLight { emit: TextureKey },
}

impl Default for Material {
    /// A matt surface whose texture is the null handle.
    fn default() -> (m: Material)
        ensures
            m == (Material::Lambertian { albedo: TextureKey { id: NULL_ID } }),
    {
        Material::Lambertian { albedo: TextureKey { id: NULL_ID } }
    }
}

/// Scattering at a matt surface.
///
/// `candidate` is the sum of the normal and a random unit vector; where it
/// is too short to give a direction the normal takes its place.
/// `attenuation` is the value of the albedo at the hit, and it is handed on
/// as it is.
pub open spec fn spec_lambertian_scatter(
    rec: HitRecord,
    candidate: Vec3,
    attenuation: Rgba,
) -> ScatterResult {
    ScatterResult::Scattered {
        ray_out: Ray {
            origin: rec.point,
            direction: if spec_near_zero(candidate) {
                rec.normal
            } else {
                candidate
            },
        },
        color: attenuation,
    }
}

#[verifier::when_used_as_spec(spec_lambertian_scatter)]
pub fn lambertian_scatter(rec: HitRecord, candidate: Vec3, attenuation: Rgba) -> (r:
    ScatterResult)
    ensures
        r == spec_lambertian_scatter(rec, candidate, attenuation),
        r matches ScatterResult::Scattered { color, .. } && color == attenuation,
{
    let direction = if near_zero(candidate) {
        rec.normal
    } else {
        candidate
    };
    ScatterResult::Scattered { ray_out: Ray { origin: rec.point, direction }, color: attenuation }
}

/// Scattering at a mirror.
///
/// `direction` is the mirrored direction with its blur, `facing` its inner
/// product with the normal. The ray goes on where `facing` is above zero,
/// and is absorbed in every other case: it would run into the surface.
pub open spec fn spec_metal_scatter(
    rec: HitRecord,
    direction: Vec3,
    facing: Scalar,
    attenuation: Rgba,
) -> ScatterResult {
    if (Scalar { bits: 0 }).spec_lt(facing) {
        ScatterResult::Scattered {
            ray_out: Ray { origin: rec.point, direction },
            color: attenuation,
        }
    } else {
        ScatterResult::Absorbed
    }
}

#[verifier::when_used_as_spec(spec_metal_scatter)]
pub fn metal_scatter(rec: HitRecord, direction: Vec3, facing: Scalar, attenuation: Rgba) -> (r:
    ScatterResult)
    ensures
        r == spec_metal_scatter(rec, direction, facing, attenuation),
{
    if (Scalar { bits: 0 }).lt(facing) {
        ScatterResult::Scattered {
            ray_out: Ray { origin: rec.point, direction },
            color: attenuation,
        }
    } else {
        ScatterResult::Absorbed
    }
}

/// Whether glass mirrors a ray: it must where the ray cannot pass, which
/// is where `bend`, the ratio of the indices times the sine of the angle of
/// incidence, is above one; and it does where the reflectance is above the
/// number drawn.
pub open spec fn reflects(bend: Scalar, reflectance: Scalar, draw: Scalar) -> bool {
    (Scalar { bits: ONE_BITS }).spec_lt(bend) || draw.spec_lt(reflectance)
}

/// Scattering at glass: the ray always goes on, untinted, mirrored or
/// refracted as `reflects` says.
pub open spec fn spec_dielectric_scatter(
    rec: HitRecord,
    bend: Scalar,
    reflectance: Scalar,
    draw: Scalar,
    reflected: Vec3,
    refracted: Vec3,
) -> ScatterResult {
    ScatterResult::Scattered {
        ray_out: Ray {
            origin: rec.point,
            direction: if reflects(bend, reflectance, draw) {
                reflected
            } else {
                refracted
            },
        },
        color: Rgba::spec_one(),
    }
}

#[verifier::when_used_as_spec(spec_dielectric_scatter)]
pub fn dielectric_scatter(
    rec: HitRecord,
    bend: Scalar,
    reflectance: Scalar,
    draw: Scalar,
    reflected: Vec3,
    refracted: Vec3,
) -> (r: ScatterResult)
    ensures
        r == spec_dielectric_scatter(rec, bend, reflectance, draw, reflected, refracted),
{
    let cannot_refract = (Scalar { bits: ONE_BITS }).lt(bend);
    let angle_criteria = draw.lt(reflectance);
    let direction = if cannot_refract || angle_criteria {
        reflected
    } else {
        refracted
    };
    ScatterResult::Scattered { ray_out: Ray { origin: rec.point, direction }, color: Rgba::one() }
}

/// Past the critical angle glass mirrors the ray, whatever is drawn.
pub proof fn lemma_total_internal_reflection(
    rec: HitRecord,
    bend: Scalar,
    reflectance: Scalar,
    draw: Scalar,
    reflected: Vec3,
    refracted: Vec3,
)
    requires
        (Scalar { bits: ONE_BITS }).spec_lt(bend),
    ensures
        spec_dielectric_scatter(rec, bend, reflectance, draw, reflected, refracted) == (
        ScatterResult::Scattered {
            ray_out: Ray { origin: rec.point, direction: reflected },
            color: Rgba::spec_one(),
        }),
{
}

/// A mirrored direction with its blur, and its inner product with the
/// normal.
#[derive(Clone, Copy, Debug, PartialEq, Eq, Structural)]
pub struct Reflection {
    pub direction: Vec3,
    pub facing: Scalar,
}

/// What decides the way of a ray at glass: `bend` is the ratio of the
/// indices times the sine of the angle of incidence, `draw` a number drawn
/// from zero up to one.
#[derive(Clone, Copy, Debug, PartialEq, Eq, Structural)]
pub struct Refraction {
    pub bend: Scalar,
    pub reflectance: Scalar,
    pub draw: Scalar,
    pub reflected: Vec3,
    pub refracted: Vec3,
}

/// The arithmetic of light, which the library leaves to its caller.
///
/// `sines` gives, for a scale and a point, the product of the sines of the
/// point's three scaled coordinates. `stripes` gives the colour of a noise
/// texture from its noise, its scale and a point. `diffuse` gives the sum
/// of the normal of a hit and a random unit vector. `mirror` gives, for a
/// ray, a hit and a blur, the mirrored direction. `glass` gives, for a ray,
/// a hit and an index of refraction, what decides the ray's way. `combine`
/// gives the light of a path: what a surface gives off plus the tint times
/// the light that comes in.
pub struct Optics<Z, N, D, R, G, C> {
    pub sines: Z,
    pub stripes: N,
    pub diffuse: D,
    pub mirror: R,
    pub glass: G,
    pub combine: C,
}

impl<Z, N, D, R, G, C> Optics<Z, N, D, R, G, C> where
    Z: Fn(Scalar, Vec3) -> Scalar,
    N: Fn(&Noise, Scalar, Vec3) -> Rgba,
    D: Fn(HitRecord) -> Vec3,
    R: Fn(Ray, HitRecord, Scalar) -> Reflection,
    G: Fn(Ray, HitRecord, Scalar) -> Refraction,
    C: Fn(Rgba, Rgba, Rgba) -> Rgba,
 {
    /// Every function takes every argument.
    pub open spec fn total(self) -> bool {
        &&& forall|s: Scalar, p: Vec3| call_requires(self.sines, (s, p))
        &&& forall|n: &Noise, s: Scalar, p: Vec3| call_requires(self.stripes, (n, s, p))
        &&& forall|h: HitRecord| call_requires(self.diffuse, (h,))
        &&& forall|r: Ray, h: HitRecord, f: Scalar| call_requires(self.mirror, (r, h, f))
        &&& forall|r: Ray, h: HitRecord, i: Scalar| call_requires(self.glass, (r, h, i))
        &&& forall|e: Rgba, t: Rgba, l: Rgba| call_requires(self.combine, (e, t, l))
    }

    /// Whether `color` is what the texture under a handle can give at a
    /// place: a value of the texture where the pool holds one, magenta
    /// where it holds none.
    pub open spec fn tints(
        self,
        textures: Pool<Texture>,
        key: TextureKey,
        u: Scalar,
        v: Scalar,
        p: Vec3,
        color: Rgba,
    ) -> bool {
        match textures.spec_get(key.id) {
            Some(t) => gives(t, u, v, p, textures@, self.sines, self.stripes, color),
            None => color == Rgba::spec_missing(),
        }
    }

    /// The colour of the texture under a handle at a place.
    pub fn tint(
        &self,
        textures: &Pool<Texture>,
        key: TextureKey,
        u: Scalar,
        v: Scalar,
        p: Vec3,
    ) -> (color: Rgba)
        requires
            textures.well_formed(),
            pool_settles(textures@),
            self.total(),
        ensures
            self.tints(*textures, key, u, v, p, color),
    {
        match textures.get(key.id) {
            Some(t) => t.value(u, v, p, textures, &self.sines, &self.stripes),
            None => Rgba::missing(),
        }
    }
}

impl Material {
    /// Whether `color` is the light that the material can give off at a
    /// place: none but for a light, which gives what its texture gives.
    pub open spec fn emits<Z, N, D, R, G, C>(
        self,
        u: Scalar,
        v: Scalar,
        p: Vec3,
        textures: Pool<Texture>,
        optics: Optics<Z, N, D, R, G, C>,
        color: Rgba,
    ) -> bool where
        Z: Fn(Scalar, Vec3) -> Scalar,
        N: Fn(&Noise, Scalar, Vec3) -> Rgba,
        D: Fn(HitRecord) -> Vec3,
        R: Fn(Ray, HitRecord, Scalar) -> Reflection,
        G: Fn(Ray, HitRecord, Scalar) -> Refraction,
        C: Fn(Rgba, Rgba, Rgba) -> Rgba,
     {
        match self {
            Material::DiffuseLight { emit } => optics.tints(textures, emit, u, v, p, color),
            _ => color == Rgba::spec_zero(),
        }
    }

    /// Whether `result` is what can become of a ray at a hit.
    ///
    /// A matt surface always scatters, into the diffuse direction or the
    /// normal, tinted by exactly what its albedo gives at the hit. A mirror
    /// scatters into the mirrored direction, tinted by its albedo, unless
    /// that direction runs into the surface. Glass always scatters,
    /// untinted. A light absorbs.
    pub open spec fn scatters<Z, N, D, R, G, C>(
        self,
        ray_in: Ray,
        rec: HitRecord,
        textures: Pool<Texture>,
        optics: Optics<Z, N, D, R, G, C>,
        result: ScatterResult,
    ) -> bool where
        Z: Fn(Scalar, Vec3) -> Scalar,
        N: Fn(&Noise, Scalar, Vec3) -> Rgba,
        D: Fn(HitRecord) -> Vec3,
        R: Fn(Ray, HitRecord, Scalar) -> Reflection,
        G: Fn(Ray, HitRecord, Scalar) -> Refraction,
        C: Fn(Rgba, Rgba, Rgba) -> Rgba,
     {
        match self {
            Material::Lambertian { albedo } => exists|candidate: Vec3, color: Rgba|
                {
                    &&& call_ensures(optics.diffuse, (rec,), candidate)
                    &&& optics.tints(textures, albedo, rec.u, rec.v, rec.point, color)
                    &&& result == spec_lambertian_scatter(rec, candidate, color)
                },
            Material::Metal { albedo, fuzz } => exists|m: Reflection|
                {
                    &&& call_ensures(optics.mirror, (ray_in, rec, fuzz), m)
                    &&& if (Scalar { bits: 0 }).spec_lt(m.facing) {
                        exists|color: Rgba|
                            {
                                &&& optics.tints(textures, albedo, rec.u, rec.v, rec.point, color)
                                &&& result == spec_metal_scatter(rec, m.direction, m.facing, color)
                            }
                    } else {
                        result == ScatterResult::Absorbed
                    }
                },
            Material::Dielectric { ir } => exists|g: Refraction|
                {
                    &&& call_ensures(optics.glass, (ray_in, rec, ir), g)
                    &&& result == spec_dielectric_scatter(
                        rec,
                        g.bend,
                        g.reflectance,
                        g.draw,
                        g.reflected,
                        g.refracted,
                    )
                },
            Material::DiffuseLight { .. } => result == ScatterResult::Absorbed,
        }
    }

    /// The light that the material gives off at the surface coordinates
    /// `u` and `v` and the point `p`.
    pub fn emit<Z, N, D, R, G, C>(
        &self,
        u: Scalar,
        v: Scalar,
        p: Vec3,
        textures: &Pool<Texture>,
        optics: &Optics<Z, N, D, R, G, C>,
    ) -> (color: Rgba) where
        Z: Fn(Scalar, Vec3) -> Scalar,
        N: Fn(&Noise, Scalar, Vec3) -> Rgba,
        D: Fn(HitRecord) -> Vec3,
        R: Fn(Ray, HitRecord, Scalar) -> Reflection,
        G: Fn(Ray, HitRecord, Scalar) -> Refraction,
        C: Fn(Rgba, Rgba, Rgba) -> Rgba,

        requires
            textures.well_formed(),
            pool_settles(textures@),
            optics.total(),
        ensures
            self.emits(u, v, p, *textures, *optics, color),
    {
        match self {
            Material::DiffuseLight { emit } => optics.tint(textures, *emit, u, v, p),
            _ => Rgba::zero(),
        }
    }

    /// What becomes of a ray at a hit of a surface of the material.
    pub fn scatter<Z, N, D, R, G, C>(
        &self,
        ray_in: &Ray,
        rec: &HitRecord,
        textures: &Pool<Texture>,
        optics: &Optics<Z, N, D, R, G, C>,
    ) -> (result: ScatterResult) where
        Z: Fn(Scalar, Vec3) -> Scalar,
        N: Fn(&Noise, Scalar, Vec3) -> Rgba,
        D: Fn(HitRecord) -> Vec3,
        R: Fn(Ray, HitRecord, Scalar) -> Reflection,
        G: Fn(Ray, HitRecord, Scalar) -> Refraction,
        C: Fn(Rgba, Rgba, Rgba) -> Rgba,

        requires
            textures.well_formed(),
            pool_settles(textures@),
            optics.total(),
        ensures
            self.scatters(*ray_in, *rec, *textures, *optics, result),
            self is DiffuseLight ==> result == ScatterResult::Absorbed,
            self is Lambertian || self is Dielectric ==> result is Scattered,
    {
        match self {
            Material::Lambertian { albedo } => {
                let candidate = (optics.diffuse)(*rec);
                let color = optics.tint(textures, *albedo, rec.u, rec.v, rec.point);
                lambertian_scatter(*rec, candidate, color)
            },
            Material::Metal { albedo, fuzz } => {
                let m = (optics.mirror)(*ray_in, *rec, *fuzz);
                if (Scalar { bits: 0 }).lt(m.facing) {
                    let color = optics.tint(textures, *albedo, rec.u, rec.v, rec.point);
                    metal_scatter(*rec, m.direction, m.facing, color)
                } else {
                    ScatterResult::Absorbed
                }
            },
            Material::Dielectric { ir } => {
                let g = (optics.glass)(*ray_in, *rec, *ir);
                dielectric_scatter(*rec, g.bend, g.reflectance, g.draw, g.reflected, g.refracted)
            },
            Material::DiffuseLight { .. } => ScatterResult::Absorbed,
        }
    }
}

} // verus!
