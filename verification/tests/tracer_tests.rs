use std::sync::Arc;

use tracer::aabb::{surrounding_box, AABB};
use tracer::camera::{camera_for_cornell_box, Camera};
use tracer::color::color;
use tracer::hitable::{closer, FlipNormals, HitRecord, Hitable};
use tracer::material::{
    metal_decide, reflect, sqrt_fp, DiffuseLight, Lambertian, Material, Metal,
};
use tracer::math::SCALE;
use tracer::ray::Ray;
use tracer::rectangle::{Plane, Rectangle};
use tracer::render::{gamma_correct, pixel_color, to_byte};
use tracer::sphere::Sphere;
use tracer::texture::{CheckerTexture, ConstantTexture, ImageTexture, Texture};
use tracer::vec3::Vec3;

const T_LO: i64 = 66;
const T_HI: i64 = 0x40_0000_0000;

fn gray_lambertian() -> Arc<Material> {
    Arc::new(Material::Lambertian(Lambertian::new(SCALE / 2, SCALE / 2, SCALE / 2)))
}

fn unit_sphere() -> Sphere {
    Sphere::new(Vec3::new(0, 0, 0), SCALE, gray_lambertian())
}

#[test]
fn near_root_is_reported() {
    // Ray from (0,0,5) toward -z: roots at t = 4 and t = 6; the hit uses 4.
    let s = unit_sphere();
    let r = Ray::new(Vec3::new(0, 0, 5 * SCALE), Vec3::new(0, 0, -SCALE), 0);
    let rec = s.hit(&r, T_LO, T_HI).expect("ray through the center must hit");
    assert_eq!(rec.t, 4 * SCALE);
    assert_eq!(rec.p.z, SCALE);
    assert_eq!(rec.normal.z, SCALE);
    // Surface parametrization at the +z pole of the normal sphere.
    assert_eq!(rec.u, SCALE / 4);
    assert_eq!(rec.v, SCALE / 2);
}

#[test]
fn axis_ray_outside_misses() {
    // From the x-axis outside the sphere, looking down -z: no intersection.
    let s = unit_sphere();
    let r = Ray::new(Vec3::new(5 * SCALE, 0, 0), Vec3::new(0, 0, -SCALE), 0);
    assert!(s.hit(&r, T_LO, T_HI).is_none());
}

#[test]
fn tangent_ray_gives_no_double_hit() {
    // Grazing ray at distance exactly 1: the discriminant is exactly zero.
    let s = unit_sphere();
    let r = Ray::new(Vec3::new(SCALE, 0, 5 * SCALE), Vec3::new(0, 0, -SCALE), 0);
    assert!(s.hit(&r, T_LO, T_HI).is_none());
}

#[test]
fn surrounding_box_commutes_and_contains() {
    let a = AABB::new(Vec3::new(-SCALE, 0, 0), Vec3::new(SCALE, SCALE, SCALE));
    let b = AABB::new(Vec3::new(0, -SCALE, 0), Vec3::new(2 * SCALE, 0, 3 * SCALE));
    let c = AABB::new(Vec3::new(5, 5, 5), Vec3::new(6, 6, 6));
    let ab = surrounding_box(a, b);
    let ba = surrounding_box(b, a);
    assert_eq!(ab, ba);
    let ab_c = surrounding_box(surrounding_box(a, b), c);
    let a_bc = surrounding_box(a, surrounding_box(b, c));
    assert_eq!(ab_c, a_bc);
    assert!(ab.min.x <= a.min.x && ab.min.x <= b.min.x);
    assert!(ab.max.x >= a.max.x && ab.max.x >= b.max.x);
    assert!(ab.min.y <= a.min.y && ab.max.z >= b.max.z);
}

#[test]
fn aabb_hit_away_and_toward() {
    let b = AABB::new(
        Vec3::new(-SCALE, -SCALE, -SCALE),
        Vec3::new(SCALE, SCALE, SCALE),
    );
    let away = Ray::new(Vec3::new(5 * SCALE, 0, 0), Vec3::new(SCALE, 0, 0), 0);
    let toward = Ray::new(Vec3::new(5 * SCALE, 0, 0), Vec3::new(-SCALE, 0, 0), 0);
    assert!(!b.hit(&away, T_LO, T_HI));
    assert!(b.hit(&toward, T_LO, T_HI));
}

#[test]
fn aabb_zero_direction_axis() {
    let b = AABB::new(
        Vec3::new(-SCALE, -SCALE, -SCALE),
        Vec3::new(SCALE, SCALE, SCALE),
    );
    // Direction has zero y and z; origin inside those slabs: still a hit.
    let inside = Ray::new(Vec3::new(5 * SCALE, 0, 0), Vec3::new(-SCALE, 0, 0), 0);
    assert!(b.hit(&inside, T_LO, T_HI));
    // Origin strictly outside the y slab with zero y direction: a miss.
    let outside = Ray::new(
        Vec3::new(5 * SCALE, 3 * SCALE, 0),
        Vec3::new(-SCALE, 0, 0),
        0,
    );
    assert!(!b.hit(&outside, T_LO, T_HI));
}

fn sample_record(normal: Vec3) -> HitRecord {
    HitRecord {
        t: SCALE,
        u: 0,
        v: 0,
        p: Vec3::new(0, 0, 0),
        normal,
        material: gray_lambertian(),
    }
}

#[test]
fn lambertian_always_scatters() {
    let m = Material::Lambertian(Lambertian::new(SCALE / 2, SCALE / 4, SCALE / 8));
    let r = Ray::new(Vec3::new(0, 0, 5 * SCALE), Vec3::new(0, 0, -SCALE), 7);
    let rec = sample_record(Vec3::new(0, 0, SCALE));
    for _ in 0..32 {
        let sr = m.scatter(&r, &rec).expect("diffuse surfaces always scatter");
        assert_eq!(sr.attenuation, Vec3::new(SCALE / 2, SCALE / 4, SCALE / 8));
        assert_eq!(sr.scattered.origin, rec.p);
        assert_eq!(sr.scattered.time, 7);
    }
}

#[test]
fn metal_absorbs_below_surface() {
    let albedo = Vec3::new(SCALE, SCALE, SCALE);
    let n = Vec3::new(0, 0, SCALE);
    let below = Vec3::new(0, 0, -SCALE);
    let above = Vec3::new(SCALE / 2, 0, SCALE);
    assert!(metal_decide(albedo, below, Vec3::new(0, 0, 0), n, 0).is_none());
    let sr = metal_decide(albedo, above, Vec3::new(0, 0, 0), n, 3).unwrap();
    assert_eq!(sr.scattered.direction, above);
    assert_eq!(sr.scattered.time, 3);
    // A mirror-aligned reflection keeps the sign of the normal component.
    let refl = reflect(Vec3::new(0, 0, -SCALE), n);
    assert_eq!(refl, Vec3::new(0, 0, SCALE));
}

#[test]
fn dielectric_total_internal_reflection_reflects() {
    // Exiting glass at a grazing angle: the refraction discriminant is
    // negative, and the scattered ray must be the pure reflection.
    let m = Material::Dielectric(tracer::material::Dielectric::new((3 * SCALE) / 2));
    let dir = Vec3::new(10 * SCALE, 0, SCALE);
    let r = Ray::new(Vec3::new(0, 0, 0), dir, 0);
    let rec = sample_record(Vec3::new(0, 0, SCALE));
    let sr = m.scatter(&r, &rec).expect("a dielectric always returns a ray");
    assert_eq!(sr.attenuation, Vec3::new(SCALE, SCALE, SCALE));
    let expected = reflect(dir.unit_or_default(), rec.normal);
    assert_eq!(sr.scattered.direction, expected);
}

#[test]
fn light_never_scatters() {
    let m = Material::DiffuseLight(DiffuseLight::new(4 * SCALE, 4 * SCALE, 4 * SCALE));
    let r = Ray::new(Vec3::new(0, 0, 5 * SCALE), Vec3::new(0, 0, -SCALE), 0);
    let rec = sample_record(Vec3::new(0, 0, SCALE));
    assert!(m.scatter(&r, &rec).is_none());
    let e = m.emitted(0, 0, &Vec3::new(0, 0, 0));
    assert_eq!(e, Vec3::new(4 * SCALE, 4 * SCALE, 4 * SCALE));
}

#[test]
fn radiance_miss_is_black() {
    let world = Hitable::List(tracer::hitable_list::HitableList {
        hitables: vec![Hitable::Sphere(unit_sphere())],
    });
    let r = Ray::new(Vec3::new(0, 0, 5 * SCALE), Vec3::new(0, 0, SCALE), 0);
    assert_eq!(color(&r, &world, 0), Vec3::new(0, 0, 0));
    let empty = Hitable::List(tracer::hitable_list::HitableList { hitables: vec![] });
    let toward = Ray::new(Vec3::new(0, 0, 5 * SCALE), Vec3::new(0, 0, -SCALE), 0);
    assert_eq!(color(&toward, &empty, 0), Vec3::new(0, 0, 0));
}

#[test]
fn radiance_depth_stays_bounded() {
    // A fully mirror-lined box: paths bounce until the depth cap ends them.
    let mirror = Arc::new(Material::Metal(Metal::new((SCALE, SCALE, SCALE), 0)));
    let block = tracer::block::Block::new(
        Vec3::new(-10 * SCALE, -10 * SCALE, -10 * SCALE),
        Vec3::new(10 * SCALE, 10 * SCALE, 10 * SCALE),
        mirror,
    );
    let world = Hitable::Block(block);
    for k in 0..8i64 {
        let r = Ray::new(
            Vec3::new(0, 0, 0),
            Vec3::new(SCALE, k * 700, 900 - k * 350),
            0,
        );
        let c = color(&r, &world, 0);
        assert!(c.x.abs() <= 0x4000_0000);
    }
}

#[test]
fn emissive_rectangle_end_to_end() {
    let light = Arc::new(Material::DiffuseLight(DiffuseLight::new(
        4 * SCALE,
        4 * SCALE,
        4 * SCALE,
    )));
    let rect = Rectangle::new(
        Plane::XY,
        -10 * SCALE,
        10 * SCALE,
        -10 * SCALE,
        10 * SCALE,
        0,
        light,
    );
    let world = Hitable::Rect(rect);
    let r = Ray::new(Vec3::new(0, 0, 5 * SCALE), Vec3::new(0, 0, -SCALE), 0);
    let c = color(&r, &world, 0);
    assert_eq!(c, Vec3::new(4 * SCALE, 4 * SCALE, 4 * SCALE));
    let g = gamma_correct(c);
    assert_eq!(g, Vec3::new(2 * SCALE, 2 * SCALE, 2 * SCALE));
}

#[test]
fn checker_parity_picks_sub_texture() {
    let black = Texture::Constant(ConstantTexture::new(0, 0, 0));
    let white = Texture::Constant(ConstantTexture::new(SCALE, SCALE, SCALE));
    let checker = Texture::Checker(CheckerTexture::new(black, white));
    // 10 * 0.1 = 1 radian on each axis: all sines positive, product > 0.
    let even_p = Vec3::new(6554, 6554, 6554);
    assert_eq!(checker.value(0, 0, &even_p), Vec3::new(SCALE, SCALE, SCALE));
    // Flip one axis: one negative sine makes the product negative.
    let odd_p = Vec3::new(6554, 6554, -6554);
    assert_eq!(checker.value(0, 0, &odd_p), Vec3::new(0, 0, 0));
}

#[test]
fn rectangle_parametrization_is_exact() {
    let rect = Rectangle::new(Plane::XY, 0, SCALE, 0, SCALE, 0, gray_lambertian());
    let r = Ray::new(
        Vec3::new(SCALE / 2, SCALE / 4, 5 * SCALE),
        Vec3::new(0, 0, -SCALE),
        0,
    );
    let rec = rect.hit(&r, T_LO, T_HI).expect("the ray crosses the rectangle");
    assert_eq!(rec.t, 5 * SCALE);
    assert_eq!(rec.u, SCALE / 2);
    assert_eq!(rec.v, SCALE / 4);
    assert_eq!(rec.normal, Vec3::new(0, 0, SCALE));
}

#[test]
fn flip_normals_negates() {
    let rect = Rectangle::new(Plane::XY, 0, SCALE, 0, SCALE, 0, gray_lambertian());
    let flipped = Hitable::Flip(FlipNormals::new(Box::new(Hitable::Rect(rect))));
    let r = Ray::new(
        Vec3::new(SCALE / 2, SCALE / 4, 5 * SCALE),
        Vec3::new(0, 0, -SCALE),
        0,
    );
    let rec = flipped.hit(&r, T_LO, T_HI).unwrap();
    assert_eq!(rec.normal, Vec3::new(0, 0, -SCALE));
}

#[test]
fn bvh_node_keeps_nearer_child() {
    let near = Hitable::Sphere(Sphere::new(Vec3::new(0, 0, 0), SCALE, gray_lambertian()));
    let far = Hitable::Sphere(Sphere::new(
        Vec3::new(0, 0, -6 * SCALE),
        SCALE,
        gray_lambertian(),
    ));
    let node = tracer::bvh::BVHNode::new(Box::new(near), Box::new(far), 0, SCALE)
        .expect("both children have boxes");
    let r = Ray::new(Vec3::new(0, 0, 5 * SCALE), Vec3::new(0, 0, -SCALE), 0);
    let rec = node.hit(&r, T_LO, T_HI).expect("the ray hits both spheres");
    assert_eq!(rec.t, 4 * SCALE);
    assert!(closer(None, None).is_none());
    let mut a = sample_record(Vec3::new(0, 0, SCALE));
    a.t = SCALE;
    let mut b = sample_record(Vec3::new(0, 0, SCALE));
    b.t = 2 * SCALE;
    assert_eq!(closer(Some(a), Some(b)).unwrap().t, SCALE);
    let mut c = sample_record(Vec3::new(0, 0, SCALE));
    c.t = 3 * SCALE;
    assert_eq!(closer(None, Some(c)).unwrap().t, 3 * SCALE);
}

#[test]
fn hitable_list_keeps_minimum_t() {
    let near = Hitable::Sphere(Sphere::new(Vec3::new(0, 0, 0), SCALE, gray_lambertian()));
    let far = Hitable::Sphere(Sphere::new(
        Vec3::new(0, 0, -6 * SCALE),
        SCALE,
        gray_lambertian(),
    ));
    let world = tracer::hitable_list::HitableList { hitables: vec![far, near] };
    let r = Ray::new(Vec3::new(0, 0, 5 * SCALE), Vec3::new(0, 0, -SCALE), 0);
    let rec = world.hit(&r, T_LO, T_HI).unwrap();
    assert_eq!(rec.t, 4 * SCALE);
    assert_eq!(world.size(), 2);
}

#[test]
fn image_texture_texel_lookup() {
    let tex = ImageTexture::new(vec![255, 0, 128], 1, 1);
    let t = Texture::Image(tex);
    let c = t.value(0, 0, &Vec3::new(0, 0, 0));
    assert_eq!(c.x, SCALE);
    assert_eq!(c.y, 0);
    assert_eq!(c.z, 128 * SCALE / 255);
}

#[test]
fn perlin_tables_are_permutations() {
    let p = tracer::perlin::Perlin::new();
    assert_eq!(p.perm_x.len(), 256);
    let mut seen = [false; 256];
    for &v in p.perm_x.iter() {
        assert!(v < 256);
        assert!(!seen[v], "an index repeated: not a permutation");
        seen[v] = true;
    }
    let n = p.noise(&Vec3::new(12345, -6789, 424242));
    assert!(n.abs() <= 24 * SCALE);
    let t = p.turbulence(&Vec3::new(12345, -6789, 424242), 7);
    assert!(t >= 0 && t <= 48 * SCALE);
}

#[test]
fn random_draws_stay_in_range() {
    for _ in 0..256 {
        let r = tracer::rng::rand_below(7);
        assert!(r < 7);
        let u = tracer::rng::random_unit();
        assert!((0..SCALE).contains(&u));
        let s = tracer::rng::random_symmetric();
        assert!((-SCALE..SCALE).contains(&s));
    }
}

#[test]
fn fixed_point_square_roots() {
    assert_eq!(sqrt_fp(4 * SCALE), 2 * SCALE);
    assert_eq!(sqrt_fp(SCALE), SCALE);
    assert_eq!(sqrt_fp(0), 0);
}

#[test]
fn byte_conversion_matches_writer_rules() {
    assert_eq!(to_byte(SCALE), 255);
    assert_eq!(to_byte(SCALE / 2), 127);
    assert_eq!(to_byte(0), 0);
    assert_eq!(to_byte(-5 * SCALE), 0);
    assert_eq!(to_byte(9 * SCALE), 255);
}

#[test]
fn trig_basics() {
    assert_eq!(tracer::trig::sin_fp(0), 0);
    for k in -20..20i64 {
        let s = tracer::trig::sin_fp(k * 30000);
        assert!(s.abs() <= SCALE);
        let c = tracer::trig::cos_fp(k * 30000);
        assert!(c.abs() <= SCALE);
    }
    // A quarter turn has sine close to one.
    let s = tracer::trig::sin_fp(tracer::trig::HALF_PI_FP);
    assert!(s > (9 * SCALE) / 10);
}

#[test]
fn camera_rays_are_usable() {
    let cam = camera_for_cornell_box(300, 300);
    for _ in 0..16 {
        let r = cam.get_ray(SCALE / 2, SCALE / 2);
        assert!(r.direction.x.abs() <= 0x400_0000);
        assert!((0..=SCALE).contains(&r.time));
    }
}

#[test]
fn pixel_color_on_light_scene() {
    let light = Arc::new(Material::DiffuseLight(DiffuseLight::new(
        4 * SCALE,
        4 * SCALE,
        4 * SCALE,
    )));
    let rect = Rectangle::new(
        Plane::XY,
        -100 * SCALE,
        100 * SCALE,
        -100 * SCALE,
        100 * SCALE,
        -50 * SCALE,
        light,
    );
    let world = Hitable::Rect(rect);
    let cam = Camera::new(
        Vec3::new(0, 0, 5 * SCALE),
        Vec3::new(0, 0, 0),
        Vec3::new(0, SCALE, 0),
        40 * SCALE,
        SCALE,
        0,
        10 * SCALE,
        0,
        0,
    );
    let c = pixel_color(&world, &cam, 4, 4, 9, 9, 4);
    // Every camera ray ends on the light: exactly (4,4,4), then gamma 2.
    assert_eq!(c, Vec3::new(2 * SCALE, 2 * SCALE, 2 * SCALE));
}

#[test]
fn translate_shifts_hit_point() {
    let sphere = Hitable::Sphere(unit_sphere());
    let moved = Hitable::Translated(tracer::translate::Translate::new(
        Box::new(sphere),
        Vec3::new(3 * SCALE, 0, 0),
    ));
    let r = Ray::new(Vec3::new(3 * SCALE, 0, 5 * SCALE), Vec3::new(0, 0, -SCALE), 0);
    let rec = moved.hit(&r, T_LO, T_HI).expect("the moved sphere is hit");
    assert_eq!(rec.t, 4 * SCALE);
    assert_eq!(rec.p.x, 3 * SCALE);
}

#[test]
fn moving_sphere_interpolates_endpoints() {
    let m = tracer::sphere::MovingSphere::new(
        Vec3::new(0, 0, 0),
        Vec3::new(2 * SCALE, 4 * SCALE, -6 * SCALE),
        0,
        SCALE,
        SCALE,
        gray_lambertian(),
    );
    assert_eq!(m.center_at_time(0), Vec3::new(0, 0, 0));
    assert_eq!(
        m.center_at_time(SCALE),
        Vec3::new(2 * SCALE, 4 * SCALE, -6 * SCALE)
    );
    assert_eq!(m.center_at_time(SCALE / 2), Vec3::new(SCALE, 2 * SCALE, -3 * SCALE));
    let b = m.bounding_box(0, SCALE).unwrap();
    assert_eq!(b.min, Vec3::new(-SCALE, -SCALE, -7 * SCALE));
    assert_eq!(b.max, Vec3::new(3 * SCALE, 5 * SCALE, SCALE));
}

#[test]
fn medium_hits_stay_in_range() {
    let boundary = tracer::block::Block::new(
        Vec3::new(-10 * SCALE, -10 * SCALE, -10 * SCALE),
        Vec3::new(10 * SCALE, 10 * SCALE, 10 * SCALE),
        gray_lambertian(),
    );
    let fog = Hitable::Medium(tracer::medium::ConstantMedium::new(
        Box::new(Hitable::Block(boundary)),
        SCALE / 10,
        Texture::Constant(ConstantTexture::new(SCALE, SCALE, SCALE)),
    ));
    let r = Ray::new(Vec3::new(0, 0, 50 * SCALE), Vec3::new(0, 0, -SCALE), 0);
    let mut scattered = 0;
    for _ in 0..64 {
        if let Some(rec) = fog.hit(&r, T_LO, T_HI) {
            assert!(rec.t > T_LO && rec.t < T_HI);
            assert_eq!(rec.u, 0);
            scattered += 1;
        }
    }
    // A dense fog scatters most rays that cross it.
    assert!(scattered > 0);
}

#[test]
fn noise_has_the_lattice_value() {
    // Fixed tables: identity permutations and a single unit gradient at
    // index zero. At (0.5, 0, 0) only the near corner contributes:
    // weight 1/2 times the gradient dotted with the offset (1/2), giving
    // exactly a quarter unit.
    let mut ranvec = vec![Vec3::new(0, 0, 0); 256];
    ranvec[0] = Vec3::new(SCALE, 0, 0);
    let ident: Vec<usize> = (0..256).collect();
    let p = tracer::perlin::Perlin {
        ranvec,
        perm_x: ident.clone(),
        perm_y: ident.clone(),
        perm_z: ident,
    };
    let at = Vec3::new(SCALE / 2, 0, 0);
    assert_eq!(p.noise(&at), SCALE / 4);
    assert_eq!(p.turbulence(&at, 1), SCALE / 4);
}

#[test]
fn noise_is_deterministic_and_periodic() {
    let p = tracer::perlin::Perlin::new();
    let at = Vec3::new(12345, -6789, 424242);
    // Same tables, same point: same value.
    assert_eq!(p.noise(&at), p.noise(&at));
    // A full-table shift along any axis reads the same lattice.
    let step = 256 * SCALE;
    assert_eq!(
        p.noise(&Vec3::new(at.x + step, at.y, at.z)),
        p.noise(&at)
    );
    assert_eq!(
        p.noise(&Vec3::new(at.x, at.y + step, at.z)),
        p.noise(&at)
    );
    assert_eq!(
        p.noise(&Vec3::new(at.x, at.y, at.z + step)),
        p.noise(&at)
    );
}
