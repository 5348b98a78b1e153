use rand::rngs::StdRng;
use rand::SeedableRng;
use razz_lib::{
    dielectric_scatter, lambertian_scatter, metal_scatter, textures_nest, Face, HitRecord,
    Material, MaterialKey, Noise, Optics, Pool, Ray, Reflection, Refraction, Rgba, Scalar,
    ScatterResult, Texture, TextureKey, Vec3,
};

fn s(x: f32) -> Scalar {
    Scalar::new(x.to_bits())
}

fn f(x: Scalar) -> f32 {
    f32::from_bits(x.bits)
}

fn v(x: f32, y: f32, z: f32) -> Vec3 {
    Vec3::new(s(x), s(y), s(z))
}

fn rgba(r: f32, g: f32, b: f32, a: f32) -> Rgba {
    Rgba::new(s(r), s(g), s(b), s(a))
}

fn record() -> HitRecord {
    HitRecord {
        point: v(1.0, 2.0, 3.0),
        normal: v(0.0, 1.0, 0.0),
        u: s(0.25),
        v: s(0.75),
        face: Face::Front,
        material_key: MaterialKey { id: 0 },
    }
}

fn scattered(origin: Vec3, direction: Vec3, color: Rgba) -> ScatterResult {
    ScatterResult::Scattered { ray_out: Ray::new(origin, direction), color }
}

fn chequered(odd: TextureKey, even: TextureKey, scale: f32) -> Texture {
    Texture::Checker { odd, even, scale: s(scale) }
}

fn push(textures: &mut Pool<Texture>, texture: Texture) -> TextureKey {
    TextureKey { id: textures.insert(texture) }
}

fn plain_ray() -> Ray {
    Ray::new(v(1.0, 3.0, 3.0), v(0.0, -1.0, 0.0))
}

fn sines(scale: Scalar, p: Vec3) -> Scalar {
    let k = f(scale);
    s((k * f(p.x)).sin() * (k * f(p.y)).sin() * (k * f(p.z)).sin())
}

fn no_stripes(_: &Noise, _: Scalar, _: Vec3) -> Rgba {
    panic!("these textures have no noise")
}

fn value(texture: &Texture, p: Vec3, textures: &Pool<Texture>) -> Rgba {
    texture.value(s(0.0), s(0.0), p, textures, &sines, &no_stripes)
}

fn some_reflection() -> Reflection {
    Reflection { direction: v(0.5, 0.5, 0.0), facing: s(0.5) }
}

fn some_refraction() -> Refraction {
    Refraction {
        bend: s(0.5),
        reflectance: s(0.04),
        draw: s(0.5),
        reflected: v(1.0, 1.0, 0.0),
        refracted: v(1.0, -1.0, 0.0),
    }
}

/// Optics that answer with fixed directions.
fn fixed_optics(
    candidate: Vec3,
    reflection: Reflection,
    refraction: Refraction,
) -> Optics<
    impl Fn(Scalar, Vec3) -> Scalar,
    impl Fn(&Noise, Scalar, Vec3) -> Rgba,
    impl Fn(HitRecord) -> Vec3,
    impl Fn(Ray, HitRecord, Scalar) -> Reflection,
    impl Fn(Ray, HitRecord, Scalar) -> Refraction,
    impl Fn(Rgba, Rgba, Rgba) -> Rgba,
> {
    Optics {
        sines,
        stripes: no_stripes,
        diffuse: move |_: HitRecord| candidate,
        mirror: move |_: Ray, _: HitRecord, _: Scalar| reflection,
        glass: move |_: Ray, _: HitRecord, _: Scalar| refraction,
        combine: |_: Rgba, _: Rgba, _: Rgba| -> Rgba { panic!("a single hit combines nothing") },
    }
}

#[test]
fn colours_have_the_patterns_of_their_channels() {
    assert_eq!(Rgba::zero(), rgba(0.0, 0.0, 0.0, 0.0));
    assert_eq!(Rgba::one(), rgba(1.0, 1.0, 1.0, 1.0));
    assert_eq!(Rgba::missing(), rgba(1.0, 0.0, 1.0, 1.0));
    assert_eq!(Rgba::splat(s(0.5)), rgba(0.5, 0.5, 0.5, 0.5));
    let c = rgba(0.1, 0.2, 0.3, 0.4);
    assert_eq!(Rgba::from_rgba(c), c);
    assert_eq!(c.to_rgba(), c);
    assert_eq!(
        c.to_array(),
        [0.1f32.to_bits(), 0.2f32.to_bits(), 0.3f32.to_bits(), 0.4f32.to_bits()]
    );
}

#[test]
fn pool_hands_out_handles_that_lead_back() {
    let mut pool: Pool<u32> = Pool::new();
    assert_eq!(pool.len(), 0);
    let a = pool.insert(10);
    let b = pool.insert(20);
    let c = pool.insert(30);
    assert_eq!(pool.len(), 3);
    assert!(a != b && b != c && a != c);
    assert_eq!(pool.get(a), Some(&10));
    assert_eq!(pool.get(b), Some(&20));
    assert_eq!(pool.get(c), Some(&30));
    assert_eq!(pool.item(0), Some(&10));
    assert_eq!(pool.item(2), Some(&30));
    assert_eq!(pool.item(3), None);
    for id in [a, b, c] {
        assert_eq!(id | 0x1_0000_0000, id);
        assert!(id != TextureKey::default().id);
    }
}

#[test]
fn pool_resolves_no_handle_that_it_did_not_hand_out() {
    let mut pool: Pool<u32> = Pool::new();
    assert_eq!(pool.get(TextureKey::default().id), None);
    assert_eq!(pool.get(0), None);
    let a = pool.insert(10);
    assert_eq!(pool.get(TextureKey::default().id), None);
    assert_eq!(pool.get(MaterialKey::default().id), None);
    assert_eq!(pool.get(a + 1), None);
    // another version of the same slot
    assert_eq!(pool.get(a + (2 << 32)), None);
    // a number is read as the handle with the next odd version
    assert_eq!(pool.get(a & 0xffff_ffff), Some(&10));
    let other: Pool<u32> = Pool::new();
    assert_eq!(other.get(a), None);
}

#[test]
fn null_handles() {
    assert_eq!(TextureKey::default().id, 0x1_ffff_ffff);
    assert_eq!(MaterialKey::default().id, 0x1_ffff_ffff);
    assert_eq!(Material::default(), Material::Lambertian { albedo: TextureKey::default() });
    match Texture::default() {
        Texture::Solid { color } => assert_eq!(color, rgba(0.5, 0.5, 0.5, 0.5)),
        _ => panic!("the default texture is solid"),
    }
}

#[test]
fn solid_texture_is_its_colour_everywhere() {
    let textures: Pool<Texture> = Pool::new();
    let c = rgba(0.2, 0.4, 0.6, 1.0);
    for p in [v(0.0, 0.0, 0.0), v(1.0, -2.0, 3.5), v(f32::NAN, 0.0, 0.0)] {
        assert_eq!(value(&Texture::Solid { color: c }, p, &textures), c);
    }
}

#[test]
fn checker_takes_odd_below_zero_and_even_else() {
    let mut textures: Pool<Texture> = Pool::new();
    let black = rgba(0.0, 0.0, 0.0, 1.0);
    let white = rgba(1.0, 1.0, 1.0, 1.0);
    let odd = push(&mut textures, Texture::Solid { color: black });
    let even = push(&mut textures, Texture::Solid { color: white });
    let checker = chequered(odd, even, 10.0);
    let cell = std::f32::consts::PI / 10.0;
    let mut seen = [0usize; 2];
    for i in 0..6 {
        for j in 0..6 {
            for k in 0..6 {
                let at = |n: usize| (n as f32 + 0.5) * cell;
                let p = v(at(i), at(j), at(k));
                let product = f(sines(s(10.0), p));
                let expected = if (i + j + k) % 2 == 0 { white } else { black };
                assert_eq!(product < 0.0, (i + j + k) % 2 == 1);
                assert_eq!(value(&checker, p, &textures), expected);
                assert_eq!(
                    checker.branch(s(product)),
                    Some(if product < 0.0 { odd } else { even })
                );
                seen[(i + j + k) % 2] += 1;
            }
        }
    }
    assert_eq!(seen, [108, 108]);
    assert_eq!(checker.branch(s(-1.0)), Some(odd));
    assert_eq!(checker.branch(s(1.0)), Some(even));
    assert_eq!(checker.branch(s(0.0)), Some(even));
    assert_eq!(checker.branch(s(-0.0)), Some(even));
    assert_eq!(checker.branch(s(f32::NAN)), Some(even));
    assert_eq!(Texture::default().branch(s(-1.0)), None);
    // on a plane of the lattice the product is zero: the even texture
    assert_eq!(value(&checker, v(0.0, 0.1, 0.1), &textures), white);
}

#[test]
fn checker_with_a_missing_branch_is_magenta_on_that_branch() {
    let mut textures: Pool<Texture> = Pool::new();
    let green = rgba(0.0, 1.0, 0.0, 1.0);
    let even = push(&mut textures, Texture::Solid { color: green });
    let checker = chequered(TextureKey::default(), even, 1.0);
    // sin(1) is above and sin(-1) below zero
    assert_eq!(value(&checker, v(1.0, 1.0, 1.0), &textures), green);
    assert_eq!(value(&checker, v(-1.0, 1.0, 1.0), &textures), Rgba::missing());
    let stale = chequered(TextureKey { id: even.id + 1 }, TextureKey { id: 0 }, 1.0);
    assert_eq!(value(&stale, v(1.0, 1.0, 1.0), &textures), Rgba::missing());
    assert_eq!(value(&stale, v(-1.0, 1.0, 1.0), &textures), Rgba::missing());
}

#[test]
fn checkers_nest() {
    let mut textures: Pool<Texture> = Pool::new();
    let red = rgba(1.0, 0.0, 0.0, 1.0);
    let blue = rgba(0.0, 0.0, 1.0, 1.0);
    let grey = rgba(0.5, 0.5, 0.5, 1.0);
    let r = push(&mut textures, Texture::Solid { color: red });
    let b = push(&mut textures, Texture::Solid { color: blue });
    let g = push(&mut textures, Texture::Solid { color: grey });
    // the inner checker has cells of half the size
    let inner = push(&mut textures, chequered(r, b, 2.0));
    let outer = chequered(inner, g, 1.0);
    // sines at scale 1: above zero, at scale 2 irrelevant
    assert_eq!(value(&outer, v(1.0, 1.0, 1.0), &textures), grey);
    // sines at scale 1 below zero; at scale 2: sin(-2) sin(2) sin(2) is below zero
    assert_eq!(value(&outer, v(-1.0, 1.0, 1.0), &textures), red);
    // sines at scale 1 below zero; at scale 2: sin(-2) sin(2) sin(4) is above zero
    assert_eq!(value(&outer, v(-1.0, 1.0, 2.0), &textures), blue);
}

#[test]
fn textures_that_nest_to_a_depth() {
    let mut textures: Pool<Texture> = Pool::new();
    let solid = push(&mut textures, Texture::default());
    assert!(textures_nest(&textures, 0));
    let one = push(&mut textures, chequered(solid, solid, 1.0));
    assert!(!textures_nest(&textures, 0));
    assert!(textures_nest(&textures, 1));
    let two = push(&mut textures, chequered(one, TextureKey::default(), 1.0));
    assert!(!textures_nest(&textures, 1));
    assert!(textures_nest(&textures, 2));
    assert!(textures_nest(&textures, 3));
    let top = textures.get(two.id).unwrap();
    assert!(!top.nests_within(&textures, 0));
    assert!(!top.nests_within(&textures, 1));
    assert!(top.nests_within(&textures, 2));
    assert!(Texture::default().nests_within(&textures, 0));
    // a checker whose branches lead nowhere ends after itself
    let loose = chequered(TextureKey::default(), TextureKey { id: 12345 }, 1.0);
    assert!(!loose.nests_within(&textures, 0));
    assert!(loose.nests_within(&textures, 1));
}

#[test]
fn textures_in_a_cycle_nest_to_no_depth() {
    let mut textures: Pool<Texture> = Pool::new();
    // the handle that the pool will hand out next, forged ahead of time
    let first = textures.insert(Texture::default());
    let next = TextureKey { id: first + 1 };
    let selfish = textures.insert(chequered(next, TextureKey { id: first }, 1.0));
    assert_eq!(selfish, next.id);
    for depth in [0, 1, 2, 5, 12] {
        assert!(!textures_nest(&textures, depth));
        assert!(!textures.get(selfish).unwrap().nests_within(&textures, depth));
    }
}

#[test]
fn noise_texture_is_what_the_stripes_make_of_it() {
    let gradients: Vec<Vec3> = (0..256u32).map(|i| Vec3::from_bits(i, 0, 0)).collect();
    let noise = Noise::turbulent(gradients, &mut StdRng::seed_from_u64(1), 7);
    let mut textures: Pool<Texture> = Pool::new();
    let marble = push(&mut textures, Texture::Noise { noise: Box::new(noise), scale: s(4.0) });
    let asked = std::cell::Cell::new(None);
    let stripes = |noise: &Noise, scale: Scalar, p: Vec3| {
        asked.set(Some((noise.octaves(), scale, p)));
        rgba(0.3, 0.3, 0.3, 0.3)
    };
    let p = v(1.0, 2.0, 3.0);
    let texture = textures.get(marble.id).unwrap();
    assert_eq!(
        texture.value(s(0.0), s(0.0), p, &textures, &sines, &stripes),
        rgba(0.3, 0.3, 0.3, 0.3)
    );
    assert_eq!(asked.get(), Some((Some(7), s(4.0), p)));
    // through a checker
    let checker = chequered(marble, marble, 1.0);
    asked.set(None);
    assert_eq!(
        checker.value(s(0.0), s(0.0), p, &textures, &sines, &stripes),
        rgba(0.3, 0.3, 0.3, 0.3)
    );
    assert_eq!(asked.get(), Some((Some(7), s(4.0), p)));
}

#[test]
fn lambertian_attenuation_is_the_texture_value() {
    let mut textures: Pool<Texture> = Pool::new();
    let c = rgba(0.65, 0.05, 0.05, 1.0);
    let key = push(&mut textures, Texture::Solid { color: c });
    let material = Material::Lambertian { albedo: key };
    let rec = record();
    let candidate = v(0.3, 1.2, -0.4);
    let optics = fixed_optics(candidate, some_reflection(), some_refraction());
    assert_eq!(
        material.scatter(&plain_ray(), &rec, &textures, &optics),
        scattered(rec.point, candidate, c)
    );
    assert_eq!(
        lambertian_scatter(rec, candidate, c),
        scattered(rec.point, candidate, c)
    );
}

#[test]
fn lambertian_attenuation_is_the_value_at_the_hit() {
    let mut textures: Pool<Texture> = Pool::new();
    let black = rgba(0.0, 0.0, 0.0, 1.0);
    let white = rgba(1.0, 1.0, 1.0, 1.0);
    let odd = push(&mut textures, Texture::Solid { color: black });
    let even = push(&mut textures, Texture::Solid { color: white });
    let key = push(&mut textures, chequered(odd, even, 1.0));
    let material = Material::Lambertian { albedo: key };
    let optics = fixed_optics(v(0.0, 1.0, 0.0), some_reflection(), some_refraction());
    let mut rec = record();
    let cases =
        [(v(1.0, 1.0, 1.0), white), (v(-1.0, 1.0, 1.0), black), (v(-1.0, -1.0, 1.0), white)];
    for (point, expected) in cases {
        rec.point = point;
        assert_eq!(
            material.scatter(&plain_ray(), &rec, &textures, &optics),
            scattered(point, v(0.0, 1.0, 0.0), expected)
        );
    }
}

#[test]
fn materials_scatter_by_their_kind() {
    let mut textures: Pool<Texture> = Pool::new();
    let blue = rgba(0.2, 0.2, 0.6, 1.0);
    let key = push(&mut textures, Texture::Solid { color: blue });
    let rec = record();
    let ray = plain_ray();
    let optics = fixed_optics(v(0.0, 0.0, 0.0), some_reflection(), some_refraction());
    // a candidate too short: the normal
    assert_eq!(
        Material::Lambertian { albedo: key }.scatter(&ray, &rec, &textures, &optics),
        scattered(rec.point, rec.normal, blue)
    );
    assert_eq!(
        Material::Metal { albedo: key, fuzz: s(0.1) }.scatter(&ray, &rec, &textures, &optics),
        scattered(rec.point, v(0.5, 0.5, 0.0), blue)
    );
    assert_eq!(
        Material::Dielectric { ir: s(1.5) }.scatter(&ray, &rec, &textures, &optics),
        scattered(rec.point, v(1.0, -1.0, 0.0), Rgba::one())
    );
    assert_eq!(
        Material::DiffuseLight { emit: key }.scatter(&ray, &rec, &textures, &optics),
        ScatterResult::Absorbed
    );
    // a mirrored direction that runs into the surface
    let into = Reflection { direction: v(0.5, -0.5, 0.0), facing: s(-0.5) };
    let optics = fixed_optics(v(0.0, 0.0, 0.0), into, some_refraction());
    assert_eq!(
        Material::Metal { albedo: key, fuzz: s(0.1) }.scatter(&ray, &rec, &textures, &optics),
        ScatterResult::Absorbed
    );
    // past the critical angle
    let total = Refraction { bend: s(1.25), ..some_refraction() };
    let optics = fixed_optics(v(0.0, 0.0, 0.0), some_reflection(), total);
    assert_eq!(
        Material::Dielectric { ir: s(1.5) }.scatter(&ray, &rec, &textures, &optics),
        scattered(rec.point, v(1.0, 1.0, 0.0), Rgba::one())
    );
}

#[test]
fn kernels_are_handed_the_ray_the_hit_and_the_parameter() {
    let textures: Pool<Texture> = Pool::new();
    let seen = std::cell::RefCell::new(Vec::new());
    let optics = Optics {
        sines,
        stripes: no_stripes,
        diffuse: |rec: HitRecord| {
            seen.borrow_mut().push(("diffuse", None, rec, None));
            rec.normal
        },
        mirror: |ray: Ray, rec: HitRecord, fuzz: Scalar| {
            seen.borrow_mut().push(("mirror", Some(ray), rec, Some(fuzz)));
            some_reflection()
        },
        glass: |ray: Ray, rec: HitRecord, ir: Scalar| {
            seen.borrow_mut().push(("glass", Some(ray), rec, Some(ir)));
            some_refraction()
        },
        combine: |e: Rgba, _: Rgba, _: Rgba| e,
    };
    let rec = record();
    let ray = plain_ray();
    Material::default().scatter(&ray, &rec, &textures, &optics);
    let steel = Material::Metal { albedo: TextureKey::default(), fuzz: s(0.25) };
    steel.scatter(&ray, &rec, &textures, &optics);
    Material::Dielectric { ir: s(1.5) }.scatter(&ray, &rec, &textures, &optics);
    Material::DiffuseLight { emit: TextureKey::default() }.scatter(&ray, &rec, &textures, &optics);
    assert_eq!(
        *seen.borrow(),
        vec![
            ("diffuse", None, rec, None),
            ("mirror", Some(ray), rec, Some(s(0.25))),
            ("glass", Some(ray), rec, Some(s(1.5))),
        ]
    );
}

#[test]
fn missing_albedo_is_magenta() {
    let textures: Pool<Texture> = Pool::new();
    let rec = record();
    let optics = fixed_optics(v(1.0, 1.0, 1.0), some_reflection(), some_refraction());
    assert_eq!(
        Material::default().scatter(&plain_ray(), &rec, &textures, &optics),
        scattered(rec.point, v(1.0, 1.0, 1.0), Rgba::missing())
    );
    let steel = Material::Metal { albedo: TextureKey { id: 77 }, fuzz: s(0.0) };
    assert_eq!(
        steel.scatter(&plain_ray(), &rec, &textures, &optics),
        scattered(rec.point, v(0.5, 0.5, 0.0), Rgba::missing())
    );
    assert_eq!(
        optics.tint(&textures, TextureKey::default(), s(0.0), s(0.0), v(0.0, 0.0, 0.0)),
        Rgba::missing()
    );
}

#[test]
fn lambertian_falls_back_to_the_normal() {
    let rec = record();
    let c = rgba(0.5, 0.5, 0.5, 1.0);
    for candidate in [v(0.0, 0.0, 0.0), v(1e-9, -1e-9, 0.0), v(-0.0, 9e-9, 9e-9)] {
        assert_eq!(
            lambertian_scatter(rec, candidate, c),
            scattered(rec.point, rec.normal, c)
        );
    }
    assert_eq!(
        lambertian_scatter(rec, v(1e-8, 0.0, 0.0), c),
        scattered(rec.point, v(1e-8, 0.0, 0.0), c)
    );
}

#[test]
fn metal_is_absorbed_when_it_would_enter_the_surface() {
    let rec = record();
    let c = rgba(0.2, 0.2, 0.6, 1.0);
    let d = v(0.5, 0.5, 0.0);
    assert_eq!(
        metal_scatter(rec, d, s(0.5), c),
        scattered(rec.point, d, c)
    );
    assert_eq!(metal_scatter(rec, d, s(0.0), c), ScatterResult::Absorbed);
    assert_eq!(metal_scatter(rec, d, s(-0.0), c), ScatterResult::Absorbed);
    assert_eq!(metal_scatter(rec, d, s(-0.5), c), ScatterResult::Absorbed);
    assert_eq!(metal_scatter(rec, d, s(f32::NAN), c), ScatterResult::Absorbed);
}

fn reflect(v: [f32; 3], n: [f32; 3]) -> [f32; 3] {
    let d = v[0] * n[0] + v[1] * n[1] + v[2] * n[2];
    [v[0] - 2.0 * d * n[0], v[1] - 2.0 * d * n[1], v[2] - 2.0 * d * n[2]]
}

#[test]
fn glass_mirrors_past_the_critical_angle_whatever_is_drawn() {
    // from inside glass of index 1.5, at 60 degrees to the normal
    let ir = 1.5f32;
    let angle = 60.0f32.to_radians();
    let dir = [angle.sin(), -angle.cos(), 0.0];
    let n = [0.0, 1.0, 0.0];
    let cos_theta = (-(dir[0] * n[0] + dir[1] * n[1] + dir[2] * n[2])).min(1.0);
    let sin_theta = (1.0 - cos_theta * cos_theta).sqrt();
    let bend = ir * sin_theta;
    assert!(bend > 1.0);
    let mut r0 = (1.0 - ir) / (1.0 + ir);
    r0 = r0 * r0;
    let reflectance = r0 + (1.0 - r0) * (1.0 - cos_theta).powi(5);
    let mirrored = reflect(dir, n);
    let mirrored = v(mirrored[0], mirrored[1], mirrored[2]);
    let refracted = v(9.0, 9.0, 9.0);
    let mut rec = record();
    rec.face = Face::Back;
    let textures: Pool<Texture> = Pool::new();
    for draw in [0.0, 0.25, 0.5, 0.999_999, 1.0, f32::NAN] {
        let expected = scattered(rec.point, mirrored, Rgba::one());
        assert_eq!(
            dielectric_scatter(rec, s(bend), s(reflectance), s(draw), mirrored, refracted),
            expected
        );
        let refraction = Refraction {
            bend: s(bend),
            reflectance: s(reflectance),
            draw: s(draw),
            reflected: mirrored,
            refracted,
        };
        let optics = fixed_optics(v(0.0, 0.0, 0.0), some_reflection(), refraction);
        assert_eq!(
            Material::Dielectric { ir: s(ir) }.scatter(&plain_ray(), &rec, &textures, &optics),
            expected
        );
    }
}

#[test]
fn glass_mirrors_or_refracts_by_the_draw() {
    let rec = record();
    let mirrored = v(1.0, 1.0, 0.0);
    let refracted = v(1.0, -1.0, 0.0);
    let through = scattered(rec.point, refracted, Rgba::one());
    let back = scattered(rec.point, mirrored, Rgba::one());
    assert_eq!(dielectric_scatter(rec, s(0.5), s(0.04), s(0.5), mirrored, refracted), through);
    assert_eq!(dielectric_scatter(rec, s(0.5), s(0.04), s(0.04), mirrored, refracted), through);
    assert_eq!(dielectric_scatter(rec, s(0.5), s(0.04), s(0.01), mirrored, refracted), back);
    assert_eq!(dielectric_scatter(rec, s(1.0), s(0.04), s(0.5), mirrored, refracted), through);
    assert_eq!(dielectric_scatter(rec, s(1.000_000_1), s(0.04), s(0.5), mirrored, refracted), back);
}

#[test]
fn only_lights_emit() {
    let mut textures: Pool<Texture> = Pool::new();
    let bright = rgba(5.0, 5.0, 5.0, 1.0);
    let key = push(&mut textures, Texture::Solid { color: bright });
    let optics = fixed_optics(v(1.0, 1.0, 1.0), some_reflection(), some_refraction());
    let at = |m: Material| m.emit(s(0.25), s(0.75), v(1.0, 2.0, 3.0), &textures, &optics);
    assert_eq!(at(Material::Lambertian { albedo: key }), Rgba::zero());
    assert_eq!(at(Material::Metal { albedo: key, fuzz: s(0.1) }), Rgba::zero());
    assert_eq!(at(Material::Dielectric { ir: s(1.5) }), Rgba::zero());
    assert_eq!(at(Material::DiffuseLight { emit: key }), bright);
    assert_eq!(at(Material::DiffuseLight { emit: TextureKey::default() }), Rgba::missing());
}
