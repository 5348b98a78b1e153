use rand::rngs::StdRng;
use rand::{Rng, SeedableRng};
use razz_lib::{
    BoundingBox, Face, Geometry, HitRecord, Hittable, Material, MaterialKey, Noise, Optics,
    ProgressiveRenderer, Ray, Reflection, Refraction, Rgba, Roots, Scalar, Scene, Slabs, Sphere,
    Strike, Texture, TextureKey, Trace, Vec3, World, WorldBuilder,
};
use std::cell::RefCell;

fn s(x: f32) -> Scalar {
    Scalar::new(x.to_bits())
}

fn f(x: Scalar) -> f32 {
    f32::from_bits(x.bits)
}

fn v(p: [f32; 3]) -> Vec3 {
    Vec3::new(s(p[0]), s(p[1]), s(p[2]))
}

fn a(p: Vec3) -> [f32; 3] {
    [f(p.x), f(p.y), f(p.z)]
}

fn rgba(c: [f32; 4]) -> Rgba {
    Rgba::new(s(c[0]), s(c[1]), s(c[2]), s(c[3]))
}

fn channels(c: Rgba) -> [f32; 4] {
    [f(c.r), f(c.g), f(c.b), f(c.a)]
}

fn dot(p: [f32; 3], q: [f32; 3]) -> f32 {
    p[0] * q[0] + p[1] * q[1] + p[2] * q[2]
}

fn add(p: [f32; 3], q: [f32; 3]) -> [f32; 3] {
    [p[0] + q[0], p[1] + q[1], p[2] + q[2]]
}

fn sub(p: [f32; 3], q: [f32; 3]) -> [f32; 3] {
    [p[0] - q[0], p[1] - q[1], p[2] - q[2]]
}

fn scale(k: f32, p: [f32; 3]) -> [f32; 3] {
    [k * p[0], k * p[1], k * p[2]]
}

fn unit(p: [f32; 3]) -> [f32; 3] {
    scale(1.0 / dot(p, p).sqrt(), p)
}

fn cross(p: [f32; 3], q: [f32; 3]) -> [f32; 3] {
    [p[1] * q[2] - p[2] * q[1], p[2] * q[0] - p[0] * q[2], p[0] * q[1] - p[1] * q[0]]
}

fn sphere_bounds(sphere: Sphere) -> BoundingBox {
    let c = a(sphere.center);
    let r = f(sphere.radius);
    BoundingBox::new(v(sub(c, [r; 3])), v(add(c, [r; 3])))
}

fn sphere_roots(sphere: Sphere, ray: Ray) -> Roots {
    let oc = sub(a(ray.origin), a(sphere.center));
    let d = a(ray.direction);
    let r = f(sphere.radius);
    let aa = dot(d, d);
    let half_b = dot(oc, d);
    let cc = dot(oc, oc) - r * r;
    let disc = half_b * half_b - aa * cc;
    let sqrtd = disc.sqrt();
    Roots { disc: s(disc), near: s((-half_b - sqrtd) / aa), far: s((-half_b + sqrtd) / aa) }
}

fn sphere_strike(sphere: Sphere, ray: Ray, root: Scalar) -> Strike {
    let d = a(ray.direction);
    let point = add(a(ray.origin), scale(f(root), d));
    let outward = scale(1.0 / f(sphere.radius), sub(point, a(sphere.center)));
    Strike { point: v(point), outward: v(outward), facing: s(dot(d, outward)) }
}

fn sphere_uv(normal: Vec3) -> (Scalar, Scalar) {
    let n = a(normal);
    let pi = std::f32::consts::PI;
    let theta = -n[1].acos();
    let phi = -n[2].atan2(n[0]) + pi;
    (s(phi / (2.0 * pi)), s(theta / pi))
}

struct Ball(Sphere);

impl Hittable for Ball {
    fn bounds(&self) -> BoundingBox {
        sphere_bounds(self.0)
    }

    fn hit(&self, ray: &Ray, t_min: Scalar, t_max: Scalar) -> Option<(Scalar, HitRecord)> {
        let geometry = Geometry {
            bounds: sphere_bounds,
            roots: sphere_roots,
            strike: sphere_strike,
            uv: sphere_uv,
        };
        self.0.ray_hit(ray, t_min, t_max, &geometry)
    }

    fn slabs(ray: &Ray, bounds: &BoundingBox) -> Slabs {
        let o = a(ray.origin);
        let d = a(ray.direction);
        let lo = a(bounds.min);
        let hi = a(bounds.max);
        Slabs::new(
            v([(lo[0] - o[0]) / d[0], (lo[1] - o[1]) / d[1], (lo[2] - o[2]) / d[2]]),
            v([(hi[0] - o[0]) / d[0], (hi[1] - o[1]) / d[1], (hi[2] - o[2]) / d[2]]),
        )
    }
}

struct Camera {
    origin: [f32; 3],
    top_right: [f32; 3],
    horizontal: [f32; 3],
    vertical: [f32; 3],
}

impl Camera {
    fn new(from: [f32; 3], at: [f32; 3], vfov: f32, ar: f32, focus_dist: f32) -> Camera {
        let h = (vfov.to_radians() * 0.5).tan();
        let viewport_height = 2.0 * h;
        let viewport_width = ar * viewport_height;
        let w = unit(sub(from, at));
        let u = unit(cross([0.0, 1.0, 0.0], w));
        let vv = cross(w, u);
        let horizontal = scale(focus_dist * viewport_width, u);
        let vertical = scale(focus_dist * viewport_height, vv);
        let left = sub(from, scale(0.5, horizontal));
        let top_right = sub(add(left, scale(0.5, vertical)), scale(focus_dist, w));
        Camera { origin: from, top_right, horizontal, vertical }
    }

    fn get_ray(&self, x: usize, y: usize, width: usize, height: usize, rng: &mut StdRng) -> Ray {
        let u = (x as f32 + rng.gen::<f32>()) / ((width - 1) as f32);
        let vv = (y as f32 + rng.gen::<f32>()) / ((height - 1) as f32);
        let through = sub(add(self.top_right, scale(u, self.horizontal)), scale(vv, self.vertical));
        Ray::new(v(self.origin), v(sub(through, self.origin)))
    }
}

fn sines(scale: Scalar, p: Vec3) -> Scalar {
    let k = f(scale);
    let p = a(p);
    s((k * p[0]).sin() * (k * p[1]).sin() * (k * p[2]).sin())
}

fn no_stripes(_: &Noise, _: Scalar, _: Vec3) -> Rgba {
    panic!("these scenes have no noise")
}

fn random_unit(rng: &mut StdRng) -> [f32; 3] {
    unit([rng.gen::<f32>() - 0.5, rng.gen::<f32>() - 0.5, rng.gen::<f32>() - 0.5])
}

fn reflect(d: [f32; 3], n: [f32; 3]) -> [f32; 3] {
    sub(d, scale(2.0 * dot(d, n), n))
}

fn diffuse(rng: &RefCell<StdRng>, rec: HitRecord) -> Vec3 {
    v(add(a(rec.normal), random_unit(&mut rng.borrow_mut())))
}

fn mirror(rng: &RefCell<StdRng>, ray: Ray, rec: HitRecord, fuzz: Scalar) -> Reflection {
    let n = a(rec.normal);
    let blur = scale(f(fuzz), random_unit(&mut rng.borrow_mut()));
    let direction = add(reflect(unit(a(ray.direction)), n), blur);
    Reflection { direction: v(direction), facing: s(dot(direction, n)) }
}

fn glass(rng: &RefCell<StdRng>, ray: Ray, rec: HitRecord, ir: Scalar) -> Refraction {
    let n = a(rec.normal);
    let ir = f(ir);
    let ratio = if rec.face == Face::Front { 1.0 / ir } else { ir };
    let d = unit(a(ray.direction));
    let cos_theta = dot(scale(-1.0, d), n).min(1.0);
    let sin_theta = (1.0 - cos_theta * cos_theta).sqrt();
    let mut r0 = (1.0 - ratio) / (1.0 + ratio);
    r0 = r0 * r0;
    let reflectance = r0 + (1.0 - r0) * (1.0 - cos_theta).powi(5);
    let perp = scale(ratio, add(d, scale(cos_theta, n)));
    let parallel = scale(-((1.0 - dot(perp, perp)).abs().sqrt()), n);
    Refraction {
        bend: s(ratio * sin_theta),
        reflectance: s(reflectance),
        draw: s(rng.borrow_mut().gen::<f32>()),
        reflected: v(reflect(d, n)),
        refracted: v(add(perp, parallel)),
    }
}

fn combine(emitted: Rgba, tint: Rgba, incoming: Rgba) -> Rgba {
    let (e, t, i) = (channels(emitted), channels(tint), channels(incoming));
    rgba([e[0] + t[0] * i[0], e[1] + t[1] * i[1], e[2] + t[2] * i[2], e[3] + t[3] * i[3]])
}

fn gamma(c: Rgba) -> Rgba {
    let c = channels(c);
    rgba([c[0].powf(2.0), c[1].powf(2.0), c[2].powf(2.0), c[3].powf(2.0)])
}

fn mean(old: Rgba, fresh: Rgba, count: usize) -> Rgba {
    let n = count as f32;
    let (o, x) = (channels(old), channels(fresh));
    let mix = |k: usize| (o[k] * n + x[k]) * (1.0 / (n + 1.0));
    rgba([mix(0), mix(1), mix(2), mix(3)])
}

struct Keys {
    grey: MaterialKey,
    lamp: MaterialKey,
    glass: MaterialKey,
    steel: MaterialKey,
}

fn materials(builder: &mut WorldBuilder<Ball>) -> Keys {
    let grey = builder.push_texture(Texture::default());
    assert!(builder.textures_nest(0));
    let bright = builder.push_texture(Texture::Solid { color: rgba([4.0, 2.0, 1.0, 1.0]) });
    let blue = builder.push_texture(Texture::Solid { color: rgba([0.2, 0.2, 0.6, 1.0]) });
    Keys {
        grey: builder.push_material(Material::Lambertian { albedo: grey }),
        lamp: builder.push_material(Material::DiffuseLight { emit: bright }),
        glass: builder.push_material(Material::Dielectric { ir: s(1.5) }),
        steel: builder.push_material(Material::Metal { albedo: blue, fuzz: s(0.0) }),
    }
}

fn ball(center: [f32; 3], radius: f32, key: MaterialKey) -> Ball {
    Ball(Sphere::new(v(center), s(radius), key))
}

fn two_spheres() -> World<Ball> {
    let mut builder = WorldBuilder::default();
    let keys = materials(&mut builder);
    builder.push_hittable(ball([0.0, -100.5, -1.0], 100.0, keys.grey));
    builder.push_hittable(ball([0.0, 0.0, -1.0], 0.5, keys.grey));
    World::from(builder)
}

fn light_of(world: &World<Ball>, ray: Ray, depth: usize, seed: u64) -> [f32; 4] {
    let rng = RefCell::new(StdRng::seed_from_u64(seed));
    let optics = Optics {
        sines,
        stripes: no_stripes,
        diffuse: |rec: HitRecord| diffuse(&rng, rec),
        mirror: |ray: Ray, rec: HitRecord, fuzz: Scalar| mirror(&rng, ray, rec, fuzz),
        glass: |ray: Ray, rec: HitRecord, ir: Scalar| glass(&rng, ray, rec, ir),
        combine,
    };
    channels(world.ray_color(&ray, &optics, depth))
}

#[test]
fn ray_without_a_bounce_left_brings_black() {
    let world = two_spheres();
    let at_the_sphere = Ray::new(v([0.0, 0.0, 0.0]), v([0.0, 0.0, -1.0]));
    let at_the_sky = Ray::new(v([0.0, 0.0, 0.0]), v([0.0, 1.0, 0.0]));
    assert_eq!(world.trace(&at_the_sphere, 0), Trace::Exhausted);
    assert_eq!(world.trace(&at_the_sky, 0), Trace::Exhausted);
    assert_eq!(light_of(&world, at_the_sphere, 0, 1), [0.0; 4]);
    assert_eq!(light_of(&world, at_the_sky, 0, 1), [0.0; 4]);
}

#[test]
fn ray_that_strikes_nothing_brings_the_background() {
    let world = two_spheres();
    let at_the_sky = Ray::new(v([0.0, 0.0, 0.0]), v([0.0, 1.0, 0.0]));
    assert_eq!(world.trace(&at_the_sky, 3), Trace::Escaped);
    assert_eq!(world.hit(&at_the_sky), None);
    for depth in 1..6 {
        assert_eq!(light_of(&world, at_the_sky, depth, 1), [1.0; 4]);
    }
    assert_eq!(Trace::Escaped.color(), Some(Rgba::one()));
    assert_eq!(Trace::Exhausted.color(), Some(Rgba::zero()));
    assert_eq!(Trace::Unresolved.color(), Some(Rgba::missing()));
}

#[test]
fn ray_strikes_the_nearest_surface() {
    let world = two_spheres();
    let ray = Ray::new(v([0.0, 0.0, 0.0]), v([0.0, 0.0, -1.0]));
    let (t, rec) = world.hit(&ray).unwrap();
    assert_eq!(f(t), 0.5);
    assert_eq!(a(rec.point), [0.0, 0.0, -0.5]);
    assert_eq!(a(rec.normal), [0.0, 0.0, 1.0]);
    match world.trace(&ray, 2) {
        Trace::Surface { time, record, material } => {
            assert_eq!((time, record), (t, rec));
            assert!(matches!(material, Material::Lambertian { .. }));
            assert_eq!(world.material(rec.material_key), Some(material));
        }
        other => panic!("a surface was expected, not {other:?}"),
    }
    assert_eq!(world.trace(&ray, 2).color(), None);
    // a surface nearer than a thousandth is passed over
    let grazing = Ray::new(v([0.0, 0.0, -0.4995]), v([0.0, 0.0, -1.0]));
    let (t, _) = world.hit(&grazing).unwrap();
    assert!(f(t) > 0.9);
}

#[test]
fn matt_surface_with_one_bounce_is_black_and_lit_by_the_sky_with_two() {
    let world = two_spheres();
    let down = Ray::new(v([0.0, 2.0, -1.0]), v([0.0, -1.0, 0.0]));
    // one bounce: the surface gives off nothing, and the scattered ray has no bounce left
    assert_eq!(light_of(&world, down, 1, 5), [0.0; 4]);
    // two bounces: from the top of the sphere every scattered ray reaches the sky
    for seed in 0..20 {
        assert_eq!(light_of(&world, down, 2, seed), [0.5; 4]);
    }
}

#[test]
fn missing_material_is_magenta() {
    let mut builder = WorldBuilder::new();
    let _ = materials(&mut builder);
    builder.push_hittable(ball([0.0, 0.0, -1.0], 0.5, MaterialKey::default()));
    let world = World::from(builder);
    let ray = Ray::new(v([0.0, 0.0, 0.0]), v([0.0, 0.0, -1.0]));
    assert_eq!(world.trace(&ray, 4), Trace::Unresolved);
    assert_eq!(world.material(MaterialKey::default()), None);
    assert_eq!(light_of(&world, ray, 4, 1), [1.0, 0.0, 1.0, 1.0]);
}

#[test]
fn missing_texture_is_magenta_on_the_surface() {
    let mut builder = WorldBuilder::new();
    let lamp = builder.push_material(Material::DiffuseLight { emit: TextureKey::default() });
    builder.push_hittable(ball([0.0, 0.0, -1.0], 0.5, lamp));
    let world = World::from(builder);
    let ray = Ray::new(v([0.0, 0.0, 0.0]), v([0.0, 0.0, -1.0]));
    assert_eq!(light_of(&world, ray, 4, 1), [1.0, 0.0, 1.0, 1.0]);
}

#[test]
fn light_shines_and_ends_the_ray() {
    let mut builder = WorldBuilder::new();
    let keys = materials(&mut builder);
    builder.push_hittable(ball([0.0, 0.0, -3.0], 1.0, keys.lamp));
    let world = World::from(builder);
    let ray = Ray::new(v([0.0, 0.0, 0.0]), v([0.0, 0.0, -1.0]));
    for depth in 1..5 {
        assert_eq!(light_of(&world, ray, depth, 1), [4.0, 2.0, 1.0, 1.0]);
    }
}

#[test]
fn mirror_tints_what_it_reflects() {
    let mut builder = WorldBuilder::new();
    let keys = materials(&mut builder);
    builder.push_hittable(ball([0.0, 0.0, -3.0], 1.0, keys.steel));
    builder.push_hittable(ball([0.0, 0.0, 3.0], 1.0, keys.lamp));
    let world = World::from(builder);
    // straight at the mirror, which sends the ray straight back to the lamp behind the eye
    let ray = Ray::new(v([0.0, 0.0, 0.0]), v([0.0, 0.0, -1.0]));
    let light = light_of(&world, ray, 3, 1);
    assert_eq!(light, [0.2 * 4.0, 0.2 * 2.0, 0.6 * 1.0, 1.0]);
    assert_eq!(light_of(&world, ray, 1, 1), [0.0; 4]);
}

#[test]
fn glass_lets_the_ray_through_untinted() {
    let mut builder = WorldBuilder::new();
    let keys = materials(&mut builder);
    builder.push_hittable(ball([0.0, 0.0, -3.0], 1.0, keys.glass));
    let world = World::from(builder);
    let ray = Ray::new(v([0.0, 0.0, 0.0]), v([0.0, 0.0, -1.0]));
    for seed in 0..10 {
        assert_eq!(light_of(&world, ray, 50, seed), [1.0; 4]);
    }
}

fn render_two_spheres(
    width: usize,
    height: usize,
    depth: usize,
    passes: usize,
    seed: u64,
) -> ProgressiveRenderer {
    let ar = width as f32 / height as f32;
    let camera = Camera::new([0.0, 0.0, 0.0], [0.0, 0.0, -1.0], 90.0, ar, 1.0);
    let rng = RefCell::new(StdRng::seed_from_u64(seed));
    let scene = Scene::new(two_spheres(), |x: usize, y: usize, w: usize, h: usize| {
        camera.get_ray(x, y, w, h, &mut *rng.borrow_mut())
    });
    let optics = Optics {
        sines,
        stripes: no_stripes,
        diffuse: |rec: HitRecord| diffuse(&rng, rec),
        mirror: |ray: Ray, rec: HitRecord, fuzz: Scalar| mirror(&rng, ray, rec, fuzz),
        glass: |ray: Ray, rec: HitRecord, ir: Scalar| glass(&rng, ray, rec, ir),
        combine,
    };
    let mut renderer = ProgressiveRenderer::new(width, height, depth);
    for pass in 0..passes {
        assert_eq!(renderer.num_samples(), pass);
        renderer.render(&scene, &optics, &gamma, &mean);
    }
    renderer
}

#[test]
fn two_spheres_rendered_with_one_bounce() {
    let (width, height) = (16, 9);
    let renderer = render_two_spheres(width, height, 1, 1, 2024);
    assert_eq!(renderer.num_samples(), 1);
    let image = renderer.image();
    assert_eq!(image.data.len(), width * height * 4);
    let mut sky = 0;
    let mut ground = 0;
    for j in 0..height {
        for i in 0..width {
            let c = channels(image.get_pixel_color(i, j));
            for x in c {
                assert!(!x.is_nan());
                assert!(x >= 0.0);
            }
            // with one bounce a pixel is the background or black
            assert!(c == [1.0; 4] || c == [0.0; 4]);
            if c == [1.0; 4] {
                sky += 1;
            } else {
                ground += 1;
            }
        }
    }
    assert!(sky > 20 && ground > 20);
    // the top row looks over the spheres, the bottom row at the ground
    for i in 0..width {
        assert_eq!(channels(image.get_pixel_color(i, 0)), [1.0; 4]);
        assert_eq!(channels(image.get_pixel_color(i, height - 1)), [0.0; 4]);
    }
    // the sphere in the middle
    assert_eq!(channels(image.get_pixel_color(width / 2, height / 2)), [0.0; 4]);
}

#[test]
fn same_seed_renders_the_same_picture() {
    let one = render_two_spheres(12, 8, 4, 3, 7);
    let two = render_two_spheres(12, 8, 4, 3, 7);
    let other = render_two_spheres(12, 8, 4, 3, 8);
    assert_eq!(one.image().data, two.image().data);
    assert!(one.image().data != other.image().data);
    assert_eq!(one.num_samples(), 3);
}

#[test]
fn passes_refine_the_picture_within_bounds() {
    let renderer = render_two_spheres(10, 6, 5, 8, 99);
    assert_eq!(renderer.num_samples(), 8);
    for j in 0..6 {
        for i in 0..10 {
            let c = channels(renderer.image().get_pixel_color(i, j));
            for x in c {
                assert!((0.0..=1.0).contains(&x));
            }
        }
    }
    // the sky stays the background exactly, pass after pass
    for i in 0..10 {
        assert_eq!(channels(renderer.image().get_pixel_color(i, 0)), [1.0; 4]);
    }
}

#[test]
fn builder_starts_empty_and_hands_out_distinct_handles() {
    let mut builder: WorldBuilder<Ball> = WorldBuilder::new();
    let t1 = builder.push_texture(Texture::default());
    let t2 = builder.push_texture(Texture::default());
    let m1 = builder.push_material(Material::default());
    let m2 = builder.push_material(Material::Dielectric { ir: s(1.5) });
    assert!(t1 != t2 && m1 != m2);
    assert!(t1 != TextureKey::default() && m1 != MaterialKey::default());
    let world = World::from(builder);
    assert_eq!(world.material(m1), Some(Material::default()));
    assert_eq!(world.material(m2), Some(Material::Dielectric { ir: s(1.5) }));
    assert!(world.texture_pool().get(t1.id).is_some());
    assert!(world.texture_pool().get(t2.id).is_some());
    assert_eq!(world.texture_pool().len(), 2);
    assert_eq!(world.hit(&Ray::new(v([0.0; 3]), v([0.0, 0.0, -1.0]))), None);
}
