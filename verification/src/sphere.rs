//! Spheres and time-interpolated moving spheres: the quadratic root
//! computation, root selection, and surface parametrization.

use std::sync::Arc;
use vstd::prelude::*;

use crate::aabb::{surrounding_box, AABB};
use crate::hitable::{rec_wf, HitRecord};
use crate::material::{arc_dup, material_wf, Material};
use crate::math::{div0, div_i128, isqrt_u128, sqrt_floor, within, B26, B30, B33, B38, SCALE};
use crate::ray::{ray_at, Ray};
use crate::vec3::{sdot, vec_within, Vec3};

verus! {

pub struct Sphere {
    pub center: Vec3,
    pub radius: i64,
    pub material: Arc<Material>,
}

pub struct MovingSphere {
    pub center0: Vec3,
    pub center1: Vec3,
    pub time0: i64,
    pub time1: i64,
    pub radius: i64,
    pub material: Arc<Material>,
}

pub open spec fn sphere_wf(s: Sphere) -> bool {
    &&& vec_within(s.center, B30 as int)
    &&& 1 <= s.radius <= B30
    &&& material_wf(*s.material)
}

pub open spec fn moving_sphere_wf(s: MovingSphere) -> bool {
    &&& vec_within(s.center0, B30 as int)
    &&& vec_within(s.center1, B30 as int)
    &&& 1 <= s.radius <= B30
    &&& within(s.time0 as int, B38 as int)
    &&& within(s.time1 as int, B38 as int)
    &&& material_wf(*s.material)
}

/// The quadratic's coefficients over a center `c`:
/// `a = d.d`, `b = (o-c).d`, `cc = |o-c|^2 - radius^2`.
pub open spec fn sph_a(r: Ray) -> int {
    sdot(r.direction, r.direction)
}

pub open spec fn sph_b(c: Vec3, r: Ray) -> int {
    (r.origin.x - c.x) * r.direction.x + (r.origin.y - c.y) * r.direction.y + (r.origin.z - c.z)
        * r.direction.z
}

pub open spec fn sph_c(c: Vec3, radius: int, r: Ray) -> int {
    (r.origin.x - c.x) * (r.origin.x - c.x) + (r.origin.y - c.y) * (r.origin.y - c.y) + (
    r.origin.z - c.z) * (r.origin.z - c.z) - radius * radius
}

pub open spec fn sph_disc(c: Vec3, radius: int, r: Ray) -> int {
    sph_b(c, r) * sph_b(c, r) - sph_a(r) * sph_c(c, radius, r)
}

/// The nearer root, at fixed-point scale.
pub open spec fn sph_t_near(c: Vec3, radius: int, r: Ray) -> int {
    div0((-sph_b(c, r) - sqrt_floor(sph_disc(c, radius, r) as nat)) * SCALE as int, sph_a(r))
}

/// The farther root, at fixed-point scale.
pub open spec fn sph_t_far(c: Vec3, radius: int, r: Ray) -> int {
    div0((-sph_b(c, r) + sqrt_floor(sph_disc(c, radius, r) as nat)) * SCALE as int, sph_a(r))
}

/// Root selection: the smaller root strictly inside `(t_min, t_max)`, else
/// the larger under the same test, else no hit; no hit at all when the
/// discriminant is not positive.
pub open spec fn sphere_hit_t(c: Vec3, radius: int, r: Ray, t_min: int, t_max: int) -> Option<
    int,
> {
    if sph_disc(c, radius, r) > 0 {
        let t1 = sph_t_near(c, radius, r);
        let t2 = sph_t_far(c, radius, r);
        if t_min < t1 && t1 < t_max {
            Option::Some(t1)
        } else if t_min < t2 && t2 < t_max {
            Option::Some(t2)
        } else {
            Option::None
        }
    } else {
        Option::None
    }
}

/// The nearer root never exceeds the farther one.
pub proof fn lemma_roots_ordered(c: Vec3, radius: int, r: Ray)
    requires
        sph_disc(c, radius, r) > 0,
        sph_a(r) > 0,
    ensures
        sph_t_near(c, radius, r) <= sph_t_far(c, radius, r),
{
    let b = sph_b(c, r);
    let s = sqrt_floor(sph_disc(c, radius, r) as nat) as int;
    assert((-b - s) * SCALE as int <= (-b + s) * SCALE as int) by (nonlinear_arith)
        requires
            s >= 0,
            SCALE as int > 0,
    ;
    crate::math::lemma_div0_ordered(
        (-b - s) * SCALE as int,
        (-b + s) * SCALE as int,
        sph_a(r),
    );
}

/// When the nearer root lies in range, it is the root the query reports.
pub proof fn lemma_near_root_selected(c: Vec3, radius: int, r: Ray, t_min: int, t_max: int)
    requires
        sph_disc(c, radius, r) > 0,
        t_min < sph_t_near(c, radius, r) < t_max,
    ensures
        sphere_hit_t(c, radius, r, t_min, t_max) == Option::Some(sph_t_near(c, radius, r)),
{
}

/// At a tangent (zero discriminant) the two candidate roots coincide, so
/// two distinct hits can never come out of one query; the strict
/// discriminant test then reports no hit at all.
pub proof fn lemma_tangent_single_root(c: Vec3, radius: int, r: Ray, t_min: int, t_max: int)
    requires
        sph_disc(c, radius, r) == 0,
    ensures
        sph_t_near(c, radius, r) == sph_t_far(c, radius, r),
        sphere_hit_t(c, radius, r, t_min, t_max) is None,
{
    assert(sqrt_floor(0nat) == 0);
}

/// What a sphere query returns: `None` exactly as `sphere_hit_t` says,
/// unless the record's point or normal fell outside the working bounds (a
/// guard that well-scaled scenes never reach); a returned record carries
/// the selected root, the point on the ray, and the outward normal.
pub open spec fn sphere_hit_ok(
    c: Vec3,
    radius: int,
    mat: Material,
    r: Ray,
    t_min: int,
    t_max: int,
    res: Option<HitRecord>,
) -> bool {
    match res {
        Option::Some(rec) => {
            &&& sphere_hit_t(c, radius, r, t_min, t_max) == Option::Some(rec.t as int)
            &&& guards_pass(c, radius, r, t_min, t_max)
            &&& rec.p == ray_at(r, rec.t as int)
            &&& rec.normal == sphere_normal(c, radius, rec.p)
            &&& rec.u == sphere_uv_spec(rec.normal).0
            &&& rec.v == sphere_uv_spec(rec.normal).1
            &&& *rec.material == mat
        },
        Option::None => sphere_hit_t(c, radius, r, t_min, t_max) is None || !guards_pass(
            c,
            radius,
            r,
            t_min,
            t_max,
        ),
    }
}

/// The unique record a sphere query reports: the selected root, the point
/// on the ray, the outward normal, the parametrization and the sphere's
/// own material handle; `None` when no root is selected or the range
/// guard fires.
pub open spec fn sphere_outcome(
    c: Vec3,
    radius: int,
    material: std::sync::Arc<crate::material::Material>,
    r: Ray,
    t_min: int,
    t_max: int,
) -> Option<HitRecord> {
    match sphere_hit_t(c, radius, r, t_min, t_max) {
        Option::Some(t) => if guards_pass(c, radius, r, t_min, t_max) {
            let p = ray_at(r, t);
            let normal = sphere_normal(c, radius, p);
            Option::Some(
                HitRecord {
                    t: t as i64,
                    u: sphere_uv_spec(normal).0 as i64,
                    v: sphere_uv_spec(normal).1 as i64,
                    p,
                    normal,
                    material,
                },
            )
        } else {
            Option::None
        },
        Option::None => Option::None,
    }
}

/// The outward normal `(p - c) / radius` at fixed-point scale.
pub open spec fn sphere_normal(c: Vec3, radius: int, p: Vec3) -> Vec3 {
    Vec3 {
        x: div0((p.x - c.x) * SCALE as int, radius) as i64,
        y: div0((p.y - c.y) * SCALE as int, radius) as i64,
        z: div0((p.z - c.z) * SCALE as int, radius) as i64,
    }
}

/// The working-range guard on the record a selected root would produce.
/// The truncated root of a nearly tangent ray with a very short direction
/// or a very small radius can land its point farther from the center than
/// any fixed multiple of the radius, so neither clause is a consequence of
/// the well-formedness bounds alone; scenes at ordinary scales never reach
/// them.
pub open spec fn guards_pass(c: Vec3, radius: int, r: Ray, t_min: int, t_max: int) -> bool {
    match sphere_hit_t(c, radius, r, t_min, t_max) {
        Option::Some(t) => {
            let p = ray_at(r, t);
            vec_within(
                Vec3 {
                    x: (p.x - c.x) as i64,
                    y: (p.y - c.y) as i64,
                    z: (p.z - c.z) as i64,
                },
                2 * B30 as int,
            ) && vec_within(sphere_normal(c, radius, p), 4 * SCALE as int)
        },
        Option::None => true,
    }
}

/// Surface parametrization from the unit normal: a monotone pseudo-angle
/// (the diamond angle) stands in for the longitude `1 - (phi + pi)/(2 pi)`
/// and agrees with it on the four axes (`1/2` at `+x`, `1/4` at `+z`,
/// `3/4` at `-z`, `0` and `1` at the `-x` seam); the latitude is a linear
/// map of the height. Both land in `[0, 1]`.
pub open spec fn sphere_uv_spec(n: Vec3) -> (int, int) {
    let den = abs_i(n.x as int) + abs_i(n.z as int);
    let q = if den == 0 {
        0
    } else {
        div0(n.z as int * SCALE as int, den)
    };
    let u0 = if n.x as int >= 0 {
        div0(2 * SCALE as int - q, 4)
    } else if n.z as int >= 0 {
        div0(q, 4)
    } else {
        SCALE as int + div0(q, 4)
    };
    let u = if u0 < 0 {
        0
    } else if u0 > SCALE as int {
        SCALE as int
    } else {
        u0
    };
    let yc = if n.y as int > SCALE as int {
        SCALE as int
    } else if (n.y as int) < -(SCALE as int) {
        -SCALE as int
    } else {
        n.y as int
    };
    let v = div0((yc + SCALE as int) * SCALE as int, 2 * SCALE as int);
    (u, v)
}

pub open spec fn abs_i(x: int) -> int {
    if x >= 0 {
        x
    } else {
        -x
    }
}

/// Compute the `(u, v)` parametrization of a quasi-unit normal.
pub fn get_sphere_uv(n: &Vec3) -> (r: (i64, i64))
    requires
        vec_within(*n, 4 * SCALE as int),
    ensures
        r.0 as int == sphere_uv_spec(*n).0,
        r.1 as int == sphere_uv_spec(*n).1,
        0 <= r.0 <= SCALE,
        0 <= r.1 <= SCALE,
{
    let ax: i64 = if n.x >= 0 {
        n.x
    } else {
        -n.x
    };
    let az: i64 = if n.z >= 0 {
        n.z
    } else {
        -n.z
    };
    let den: i64 = ax + az;
    let q: i64 = if den == 0 {
        0
    } else {
        proof {
            crate::math::lemma_mul_within(n.z as int, SCALE as int, 4 * SCALE as int, SCALE as int);
            crate::math::lemma_div0_within(
                n.z as int * SCALE as int,
                den as int,
                (4 * SCALE as int) * SCALE as int,
            );
            lemma_q_unit(n.z as int, den as int, ax as int, az as int);
        }
        div_i128((n.z as i128) * (SCALE as i128), den as i128) as i64
    };
    proof {
        crate::math::lemma_div0_within(2 * SCALE as int - q as int, 4, 3 * SCALE as int);
        crate::math::lemma_div0_within(q as int, 4, SCALE as int);
    }
    let u0: i64 = if n.x >= 0 {
        div_i128(2 * (SCALE as i128) - (q as i128), 4) as i64
    } else if n.z >= 0 {
        div_i128(q as i128, 4) as i64
    } else {
        SCALE + div_i128(q as i128, 4) as i64
    };
    let u: i64 = if u0 < 0 {
        0
    } else if u0 > SCALE {
        SCALE
    } else {
        u0
    };
    let yc: i64 = if n.y > SCALE {
        SCALE
    } else if n.y < -SCALE {
        -SCALE
    } else {
        n.y
    };
    proof {
        crate::math::lemma_mul_within(
            yc as int + SCALE as int,
            SCALE as int,
            2 * SCALE as int,
            SCALE as int,
        );
        crate::math::lemma_div0_within(
            (yc as int + SCALE as int) * SCALE as int,
            2 * SCALE as int,
            (2 * SCALE as int) * SCALE as int,
        );
        vstd::arithmetic::div_mod::lemma_div_is_ordered(
            (yc as int + SCALE as int) * SCALE as int,
            (2 * SCALE as int) * SCALE as int,
            2 * SCALE as int,
        );
        vstd::arithmetic::div_mod::lemma_div_by_multiple(SCALE as int, 2 * SCALE as int);
        assert((2 * SCALE as int) * SCALE as int == SCALE as int * (2 * SCALE as int))
            by (nonlinear_arith);
        vstd::arithmetic::div_mod::lemma_div_pos_is_pos(
            (yc as int + SCALE as int) * SCALE as int,
            2 * SCALE as int,
        );
        assert((yc as int + SCALE as int) * SCALE as int >= 0) by (nonlinear_arith)
            requires
                yc as int + SCALE as int >= 0,
        ;
        assert((yc as int + SCALE as int) * SCALE as int <= (2 * SCALE as int) * SCALE as int)
            by (nonlinear_arith)
            requires
                yc as int + SCALE as int <= 2 * SCALE as int,
                SCALE as int > 0,
        ;
    }
    let v: i64 = div_i128(
        ((yc as i128) + (SCALE as i128)) * (SCALE as i128),
        2 * (SCALE as i128),
    ) as i64;
    (u, v)
}

/// `|q| <= SCALE` for `q = z * SCALE / (|x| + |z|)`.
proof fn lemma_q_unit(z: int, den: int, ax: int, az: int)
    requires
        den == ax + az,
        den >= 1,
        az == abs_i(z),
        ax >= 0,
    ensures
        within(div0(z * SCALE as int, den), SCALE as int),
{
    assert(within(z * SCALE as int, den * SCALE as int)) by (nonlinear_arith)
        requires
            az == abs_i(z),
            den == ax + az,
            ax >= 0,
            SCALE as int > 0,
    ;
    crate::math::lemma_div0_within(z * SCALE as int, den, den * SCALE as int);
    if z >= 0 {
        vstd::arithmetic::div_mod::lemma_div_is_ordered(
            z * SCALE as int,
            den * SCALE as int,
            den,
        );
    } else {
        vstd::arithmetic::div_mod::lemma_div_is_ordered(
            -(z * SCALE as int),
            den * SCALE as int,
            den,
        );
    }
    vstd::arithmetic::div_mod::lemma_div_by_multiple(SCALE as int, den);
    assert(den * SCALE as int == SCALE as int * den) by (nonlinear_arith);
}

/// Shared root computation and record assembly for both sphere kinds.
fn sphere_hit_core(
    center: Vec3,
    radius: i64,
    material: &Arc<Material>,
    r: &Ray,
    t_min: i64,
    t_max: i64,
) -> (res: Option<HitRecord>)
    requires
        vec_within(center, B33 as int),
        1 <= radius <= B30,
        material_wf(**material),
        vec_within(r.origin, B33 as int),
        vec_within(r.direction, B26 as int),
        within(t_min as int, B38 as int),
        within(t_max as int, B38 as int),
    ensures
        sphere_hit_ok(center, radius as int, **material, *r, t_min as int, t_max as int, res),
        res == sphere_outcome(
            center,
            radius as int,
            *material,
            *r,
            t_min as int,
            t_max as int,
        ),
        res matches Option::Some(rec) ==> rec_wf(rec, t_min as int, t_max as int),
{
    let ocx: i64 = r.origin.x - center.x;
    let ocy: i64 = r.origin.y - center.y;
    let ocz: i64 = r.origin.z - center.z;
    proof {
        lemma_sph_bounds(center, radius as int, *r);
        crate::math::lemma_mul_within(r.direction.x as int, r.direction.x as int, B26 as int, B26 as int);
        crate::math::lemma_mul_within(r.direction.y as int, r.direction.y as int, B26 as int, B26 as int);
        crate::math::lemma_mul_within(r.direction.z as int, r.direction.z as int, B26 as int, B26 as int);
        crate::math::lemma_mul_within(ocx as int, r.direction.x as int, 2 * B33 as int, B26 as int);
        crate::math::lemma_mul_within(ocy as int, r.direction.y as int, 2 * B33 as int, B26 as int);
        crate::math::lemma_mul_within(ocz as int, r.direction.z as int, 2 * B33 as int, B26 as int);
        crate::math::lemma_mul_within(ocx as int, ocx as int, 2 * B33 as int, 2 * B33 as int);
        crate::math::lemma_mul_within(ocy as int, ocy as int, 2 * B33 as int, 2 * B33 as int);
        crate::math::lemma_mul_within(ocz as int, ocz as int, 2 * B33 as int, 2 * B33 as int);
        crate::math::lemma_mul_within(radius as int, radius as int, B30 as int, B30 as int);
    }
    let a: i128 = (r.direction.x as i128) * (r.direction.x as i128) + (r.direction.y as i128)
        * (r.direction.y as i128) + (r.direction.z as i128) * (r.direction.z as i128);
    let b: i128 = (ocx as i128) * (r.direction.x as i128) + (ocy as i128)
        * (r.direction.y as i128) + (ocz as i128) * (r.direction.z as i128);
    let cc: i128 = (ocx as i128) * (ocx as i128) + (ocy as i128) * (ocy as i128) + (ocz as i128)
        * (ocz as i128) - (radius as i128) * (radius as i128);
    proof {
        crate::math::lemma_mul_within(
            b as int,
            b as int,
            6 * (B33 as int) * (B26 as int),
            6 * (B33 as int) * (B26 as int),
        );
        crate::math::lemma_mul_within(
            a as int,
            cc as int,
            3 * (B26 as int) * (B26 as int),
            13 * (B33 as int) * (B33 as int),
        );
        assert((6 * (B33 as int) * (B26 as int)) * (6 * (B33 as int) * (B26 as int)) + (3 * (
        B26 as int) * (B26 as int)) * (13 * (B33 as int) * (B33 as int)) < i128::MAX)
            by (nonlinear_arith)
            requires
                B33 as int == 0x2_0000_0000,
                B26 as int == 0x400_0000,
        ;
    }
    let disc: i128 = b * b - a * cc;
    if disc > 0 {
        proof {
            lemma_disc_pos_dir_nonzero(center, radius as int, *r);
        }
        let s: i128 = isqrt_u128(disc as u128) as i128;
        proof {
            assert(((6 * (B33 as int) * (B26 as int)) * (6 * (B33 as int) * (B26 as int)) + (3 * (
            B26 as int) * (B26 as int)) * (13 * (B33 as int) * (B33 as int))) < 0x8000_0000_0000_0000int
                * 0x8000_0000_0000_0000) by (nonlinear_arith)
                requires
                    B33 as int == 0x2_0000_0000,
                    B26 as int == 0x400_0000,
            ;
            crate::math::lemma_sqrt_below(disc as nat, 0x8000_0000_0000_0000 as nat);
        }
        proof {
            assert(within((-(b as int) - s as int) * (SCALE as int), 0x1_0000_0000_0000_0000int
                * 0x1_0000_0000_0000_0000) && within(
                (-(b as int) + s as int) * (SCALE as int),
                0x1_0000_0000_0000_0000int * 0x1_0000_0000_0000_0000,
            )) by (nonlinear_arith)
                requires
                    within(b as int, 6 * (B33 as int) * (B26 as int)),
                    0 <= (s as int) && (s as int) < 0x8000_0000_0000_0000,
                    SCALE as int == 65536,
                    B33 as int == 0x2_0000_0000,
                    B26 as int == 0x400_0000,
            ;
        }
        let t1: i128 = div_i128((-b - s) * (SCALE as i128), a);
        let t2: i128 = div_i128((-b + s) * (SCALE as i128), a);
        let tl: i128 = t_min as i128;
        let th: i128 = t_max as i128;
        let picked: i128 = if tl < t1 && t1 < th {
            t1
        } else if tl < t2 && t2 < th {
            t2
        } else {
            return Option::None;
        };
        let t: i64 = picked as i64;
        proof {
            crate::ray::lemma_ray_at_bounds(*r, t as int);
        }
        let p: Vec3 = r.point_at_parameter(t);
        let pcx: i64 = p.x - center.x;
        let pcy: i64 = p.y - center.y;
        let pcz: i64 = p.z - center.z;
        if !(within_i64(pcx, 2 * B30) && within_i64(pcy, 2 * B30) && within_i64(pcz, 2 * B30)) {
            return Option::None;
        }
        proof {
            crate::math::lemma_mul_within(pcx as int, SCALE as int, 2 * B30 as int, SCALE as int);
            crate::math::lemma_mul_within(pcy as int, SCALE as int, 2 * B30 as int, SCALE as int);
            crate::math::lemma_mul_within(pcz as int, SCALE as int, 2 * B30 as int, SCALE as int);
            crate::math::lemma_div0_within(
                pcx as int * SCALE as int,
                radius as int,
                (2 * B30 as int) * SCALE as int,
            );
            crate::math::lemma_div0_within(
                pcy as int * SCALE as int,
                radius as int,
                (2 * B30 as int) * SCALE as int,
            );
            crate::math::lemma_div0_within(
                pcz as int * SCALE as int,
                radius as int,
                (2 * B30 as int) * SCALE as int,
            );
        }
        let normal = Vec3::new(
            div_i128((pcx as i128) * (SCALE as i128), radius as i128) as i64,
            div_i128((pcy as i128) * (SCALE as i128), radius as i128) as i64,
            div_i128((pcz as i128) * (SCALE as i128), radius as i128) as i64,
        );
        if !(within_i64(normal.x, 4 * SCALE) && within_i64(normal.y, 4 * SCALE) && within_i64(
            normal.z,
            4 * SCALE,
        )) {
            return Option::None;
        }
        let (u, v) = get_sphere_uv(&normal);
        Option::Some(HitRecord { t, u, v, p, normal, material: arc_dup(material) })
    } else {
        Option::None
    }
}

fn within_i64(x: i64, bound: i64) -> (r: bool)
    requires
        bound >= 0,
    ensures
        r == within(x as int, bound as int),
{
    -bound <= x && x <= bound
}

/// All quadratic intermediates stay inside `i128` under the query bounds.
proof fn lemma_sph_bounds(c: Vec3, radius: int, r: Ray)
    requires
        vec_within(c, B33 as int),
        1 <= radius <= B30,
        vec_within(r.origin, B33 as int),
        vec_within(r.direction, B26 as int),
    ensures
        within(sph_a(r), 3 * (B26 as int) * (B26 as int)),
        within(sph_b(c, r), 6 * (B33 as int) * (B26 as int)),
        within(sph_c(c, radius, r), 13 * (B33 as int) * (B33 as int)),
        within(
            sph_disc(c, radius, r),
            36 * ((B33 as int) * (B26 as int)) * ((B33 as int) * (B26 as int)) + (3 * (B26 as int)
                * (B26 as int)) * (13 * (B33 as int) * (B33 as int)),
        ),
{
    crate::math::lemma_mul_within(r.direction.x as int, r.direction.x as int, B26 as int, B26 as int);
    crate::math::lemma_mul_within(r.direction.y as int, r.direction.y as int, B26 as int, B26 as int);
    crate::math::lemma_mul_within(r.direction.z as int, r.direction.z as int, B26 as int, B26 as int);
    crate::math::lemma_mul_within(
        r.origin.x as int - c.x as int,
        r.direction.x as int,
        2 * B33 as int,
        B26 as int,
    );
    crate::math::lemma_mul_within(
        r.origin.y as int - c.y as int,
        r.direction.y as int,
        2 * B33 as int,
        B26 as int,
    );
    crate::math::lemma_mul_within(
        r.origin.z as int - c.z as int,
        r.direction.z as int,
        2 * B33 as int,
        B26 as int,
    );
    crate::math::lemma_mul_within(
        r.origin.x as int - c.x as int,
        r.origin.x as int - c.x as int,
        2 * B33 as int,
        2 * B33 as int,
    );
    crate::math::lemma_mul_within(
        r.origin.y as int - c.y as int,
        r.origin.y as int - c.y as int,
        2 * B33 as int,
        2 * B33 as int,
    );
    crate::math::lemma_mul_within(
        r.origin.z as int - c.z as int,
        r.origin.z as int - c.z as int,
        2 * B33 as int,
        2 * B33 as int,
    );
    crate::math::lemma_mul_within(radius, radius, B30 as int, B30 as int);
    assert((2 * B33 as int) * (2 * B33 as int) == 4 * ((B33 as int) * (B33 as int))
        && (B30 as int) * (B30 as int) <= (B33 as int) * (B33 as int) && (2 * B33 as int) * (
    B26 as int) == 2 * ((B33 as int) * (B26 as int))) by (nonlinear_arith)
        requires
            B33 as int == 0x2_0000_0000,
            B30 as int == 0x4000_0000,
            B26 as int == 0x400_0000,
    ;
    crate::math::lemma_mul_within(
        sph_b(c, r),
        sph_b(c, r),
        6 * (B33 as int) * (B26 as int),
        6 * (B33 as int) * (B26 as int),
    );
    crate::math::lemma_mul_within(
        sph_a(r),
        sph_c(c, radius, r),
        3 * (B26 as int) * (B26 as int),
        13 * (B33 as int) * (B33 as int),
    );
    assert((6 * (B33 as int) * (B26 as int)) * (6 * (B33 as int) * (B26 as int)) == 36 * ((
    B33 as int) * (B26 as int)) * ((B33 as int) * (B26 as int))) by (nonlinear_arith);
}

/// A positive discriminant needs a nonzero direction, so the divisor `a`
/// is positive.
proof fn lemma_disc_pos_dir_nonzero(c: Vec3, radius: int, r: Ray)
    requires
        sph_disc(c, radius, r) > 0,
    ensures
        sph_a(r) > 0,
{
    let dx = r.direction.x as int;
    let dy = r.direction.y as int;
    let dz = r.direction.z as int;
    assert(sph_a(r) >= 0) by (nonlinear_arith)
        requires
            sph_a(r) == dx * dx + dy * dy + dz * dz,
    ;
    if sph_a(r) == 0 {
        assert(dx == 0 && dy == 0 && dz == 0) by (nonlinear_arith)
            requires
                dx * dx + dy * dy + dz * dz == 0,
        ;
        assert(sph_b(c, r) == 0);
        assert(sph_b(c, r) * sph_b(c, r) == 0) by (nonlinear_arith)
            requires
                sph_b(c, r) == 0,
        ;
        assert(sph_a(r) * sph_c(c, radius, r) == 0) by (nonlinear_arith)
            requires
                sph_a(r) == 0,
        ;
        assert(false);
    }
}

impl Sphere {
    pub fn new(center: Vec3, radius: i64, material: Arc<Material>) -> (r: Sphere)
        ensures
            r.center == center,
            r.radius == radius,
            r.material == material,
    {
        Sphere { center, radius, material }
    }

    pub fn hit(&self, r: &Ray, t_min: i64, t_max: i64) -> (res: Option<HitRecord>)
        requires
            sphere_wf(*self),
            crate::hitable::ray_wf(*r, t_min as int, t_max as int),
        ensures
            sphere_hit_ok(
                self.center,
                self.radius as int,
                *self.material,
                *r,
                t_min as int,
                t_max as int,
                res,
            ),
            res == sphere_outcome(
                self.center,
                self.radius as int,
                self.material,
                *r,
                t_min as int,
                t_max as int,
            ),
            res matches Option::Some(rec) ==> rec_wf(rec, t_min as int, t_max as int),
    {
        sphere_hit_core(self.center, self.radius, &self.material, r, t_min, t_max)
    }

    /// Exactly the center offset by the radius on every axis.
    pub fn bounding_box(&self, t0: i64, t1: i64) -> (res: Option<AABB>)
        requires
            sphere_wf(*self),
        ensures
            res == Option::Some(sphere_box(self.center, self.radius as int)),
            res matches Option::Some(b) ==> crate::aabb::hit_box_wf(b),
    {
        let rv = Vec3::new(self.radius, self.radius, self.radius);
        Option::Some(AABB::new(self.center.sub(rv), self.center.add(rv)))
    }
}

/// The box of a sphere: the center offset by the radius componentwise.
pub open spec fn sphere_box(c: Vec3, radius: int) -> AABB {
    AABB {
        min: Vec3 { x: (c.x - radius) as i64, y: (c.y - radius) as i64, z: (c.z - radius) as i64 },
        max: Vec3 { x: (c.x + radius) as i64, y: (c.y + radius) as i64, z: (c.z + radius) as i64 },
    }
}

/// The interpolated center at a query time: `c0 + lf * (c1 - c0)` with the
/// blend `lf = (time - time0) / (time1 - time0)` saturated at two.
pub open spec fn lerp_center(s: MovingSphere, time: int) -> Vec3 {
    if s.time1 == s.time0 {
        s.center0
    } else {
        let span = s.time1 as int - s.time0 as int;
        let lf0 = if span > 0 {
            div0((time - s.time0) * SCALE as int, span)
        } else {
            div0(-((time - s.time0) * SCALE as int), -span)
        };
        let lf = if lf0 > 2 * SCALE as int {
            2 * SCALE as int
        } else if lf0 < -2 * SCALE as int {
            -2 * SCALE as int
        } else {
            lf0
        };
        Vec3 {
            x: (s.center0.x + div0(lf * (s.center1.x - s.center0.x), SCALE as int)) as i64,
            y: (s.center0.y + div0(lf * (s.center1.y - s.center0.y), SCALE as int)) as i64,
            z: (s.center0.z + div0(lf * (s.center1.z - s.center0.z), SCALE as int)) as i64,
        }
    }
}

impl MovingSphere {
    pub fn new(
        center0: Vec3,
        center1: Vec3,
        time0: i64,
        time1: i64,
        radius: i64,
        material: Arc<Material>,
    ) -> (r: MovingSphere)
        ensures
            r == (MovingSphere { center0, center1, time0, time1, radius, material }),
    {
        MovingSphere { center0, center1, time0, time1, radius, material }
    }

    /// Linear interpolation of the center over the shutter interval, with
    /// the blend factor saturated so far-out query times stay in bounds.
    pub fn center_at_time(&self, time: i64) -> (r: Vec3)
        requires
            moving_sphere_wf(*self),
            within(time as int, B38 as int),
        ensures
            r == lerp_center(*self, time as int),
            vec_within(r, B33 as int),
    {
        if self.time1 == self.time0 {
            return self.center0;
        }
        let dt: i64 = time - self.time0;
        let span: i64 = self.time1 - self.time0;
        proof {
            crate::math::lemma_mul_within(dt as int, SCALE as int, 2 * B38 as int, SCALE as int);
            crate::math::lemma_div0_within(
                dt as int * SCALE as int,
                if span > 0 {
                    span as int
                } else {
                    -(span as int)
                },
                (2 * B38 as int) * SCALE as int,
            );
        }
        let lf0: i64 = div_i128((dt as i128) * (SCALE as i128), span as i128) as i64;
        let lf: i64 = if lf0 > 2 * SCALE {
            2 * SCALE
        } else if lf0 < -2 * SCALE {
            -2 * SCALE
        } else {
            lf0
        };
        let dx: i64 = self.center1.x - self.center0.x;
        let dy: i64 = self.center1.y - self.center0.y;
        let dz: i64 = self.center1.z - self.center0.z;
        proof {
            crate::math::lemma_mul_within(lf as int, dx as int, 2 * SCALE as int, 2 * B30 as int);
            crate::math::lemma_mul_within(lf as int, dy as int, 2 * SCALE as int, 2 * B30 as int);
            crate::math::lemma_mul_within(lf as int, dz as int, 2 * SCALE as int, 2 * B30 as int);
            crate::math::lemma_div0_within(
                lf as int * dx as int,
                SCALE as int,
                (2 * SCALE as int) * (2 * B30 as int),
            );
            crate::math::lemma_div0_within(
                lf as int * dy as int,
                SCALE as int,
                (2 * SCALE as int) * (2 * B30 as int),
            );
            crate::math::lemma_div0_within(
                lf as int * dz as int,
                SCALE as int,
                (2 * SCALE as int) * (2 * B30 as int),
            );
            assert((2 * SCALE as int) * (2 * B30 as int) == (4 * B30 as int) * SCALE as int)
                by (nonlinear_arith)
                requires
                    SCALE as int == 65536,
                    B30 as int == 0x4000_0000,
            ;
            vstd::arithmetic::div_mod::lemma_div_by_multiple(4 * B30 as int, SCALE as int);
        }
        Vec3::new(
            self.center0.x + div_i128((lf as i128) * (dx as i128), SCALE as i128) as i64,
            self.center0.y + div_i128((lf as i128) * (dy as i128), SCALE as i128) as i64,
            self.center0.z + div_i128((lf as i128) * (dz as i128), SCALE as i128) as i64,
        )
    }

    pub fn hit(&self, r: &Ray, t_min: i64, t_max: i64) -> (res: Option<HitRecord>)
        requires
            moving_sphere_wf(*self),
            crate::hitable::ray_wf(*r, t_min as int, t_max as int),
        ensures
            sphere_hit_ok(
                lerp_center(*self, r.time as int),
                self.radius as int,
                *self.material,
                *r,
                t_min as int,
                t_max as int,
                res,
            ),
            res == sphere_outcome(
                lerp_center(*self, r.time as int),
                self.radius as int,
                self.material,
                *r,
                t_min as int,
                t_max as int,
            ),
            res matches Option::Some(rec) ==> rec_wf(rec, t_min as int, t_max as int),
    {
        let center = self.center_at_time(r.time);
        sphere_hit_core(center, self.radius, &self.material, r, t_min, t_max)
    }

    /// Exactly the union of the sphere's boxes at the two shutter ends.
    pub fn bounding_box(&self, t0: i64, t1: i64) -> (res: Option<AABB>)
        requires
            moving_sphere_wf(*self),
            within(t0 as int, B38 as int),
            within(t1 as int, B38 as int),
        ensures
            res == Option::Some(
                crate::aabb::surrounding_box_spec(
                    sphere_box(lerp_center(*self, t0 as int), self.radius as int),
                    sphere_box(lerp_center(*self, t1 as int), self.radius as int),
                ),
            ),
            res matches Option::Some(b) ==> crate::aabb::hit_box_wf(b),
    {
        let rv = Vec3::new(self.radius, self.radius, self.radius);
        let c0 = self.center_at_time(t0);
        let c1 = self.center_at_time(t1);
        let b0 = AABB::new(c0.sub(rv), c0.add(rv));
        let b1 = AABB::new(c1.sub(rv), c1.add(rv));
        Option::Some(surrounding_box(b0, b1))
    }
}

} // verus!
