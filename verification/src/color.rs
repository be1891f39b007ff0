//! The recursive radiance integrator: intersect the nearest object, add its
//! emission, and when the surface scatters, recurse along the outgoing ray
//! with the attenuation applied. Recursion is capped at a hard depth of 50,
//! which Verus checks as the termination measure; a ray that hits nothing
//! contributes exactly black.

use vstd::prelude::*;

use crate::hitable::{hitable_wf, Hitable};
use crate::math::{div0, fp_mul, within, B26, B30, B33, B38, SCALE};
use crate::ray::Ray;
use crate::vec3::{vec_within, Vec3};

verus! {

/// The self-intersection guard: intersections closer than this along the
/// ray are ignored.
pub const T_EPS: i64 = 66;

/// The depth at which the integrator stops following scattered rays.
pub const MAX_DEPTH: u32 = 50;

pub open spec fn sat1_spec(x: int) -> int {
    if x > B30 as int {
        B30 as int
    } else if x < -B30 as int {
        -B30 as int
    } else {
        x
    }
}

/// Componentwise saturating sum, the addition the integrator uses.
pub open spec fn sat_add_spec(a: Vec3, b: Vec3) -> Vec3 {
    Vec3 {
        x: sat1_spec(a.x + b.x) as i64,
        y: sat1_spec(a.y + b.y) as i64,
        z: sat1_spec(a.z + b.z) as i64,
    }
}

/// Componentwise saturating fixed-point product, the attenuation the
/// integrator applies.
pub open spec fn sat_mul_spec(a: Vec3, b: Vec3) -> Vec3 {
    Vec3 {
        x: sat1_spec(div0(a.x * b.x, SCALE as int)) as i64,
        y: sat1_spec(div0(a.y * b.y, SCALE as int)) as i64,
        z: sat1_spec(div0(a.z * b.z, SCALE as int)) as i64,
    }
}

/// Saturating componentwise addition, clamped into the color bound.
fn sat_add(a: Vec3, b: Vec3) -> (r: Vec3)
    requires
        vec_within(a, B30 as int),
        vec_within(b, B30 as int),
    ensures
        r == sat_add_spec(a, b),
        vec_within(r, B30 as int),
{
    Vec3::new(sat1(a.x + b.x), sat1(a.y + b.y), sat1(a.z + b.z))
}

/// Saturating componentwise color product at fixed point.
fn sat_mul(a: Vec3, b: Vec3) -> (r: Vec3)
    requires
        vec_within(a, B30 as int),
        vec_within(b, B30 as int),
    ensures
        r == sat_mul_spec(a, b),
        vec_within(r, B30 as int),
{
    Vec3::new(
        sat1(fp_mul(a.x, b.x)),
        sat1(fp_mul(a.y, b.y)),
        sat1(fp_mul(a.z, b.z)),
    )
}

fn sat1(x: i64) -> (r: i64)
    ensures
        r == sat1_spec(x as int),
        within(r as int, B30 as int),
{
    if x > B30 {
        B30
    } else if x < -B30 {
        -B30
    } else {
        x
    }
}

fn in_color_range(v: &Vec3) -> (r: bool)
    ensures
        r == vec_within(*v, B30 as int),
{
    -B30 <= v.x && v.x <= B30 && -B30 <= v.y && v.y <= B30 && -B30 <= v.z && v.z <= B30
}

fn ray_in_bounds(r: &Ray) -> (ok: bool)
    ensures
        ok == (vec_within(r.origin, B33 as int) && vec_within(r.direction, B26 as int) && within(
            r.time as int,
            B38 as int,
        )),
{
    -B33 <= r.origin.x && r.origin.x <= B33 && -B33 <= r.origin.y && r.origin.y <= B33 && -B33
        <= r.origin.z && r.origin.z <= B33 && -B26 <= r.direction.x && r.direction.x <= B26
        && -B26 <= r.direction.y && r.direction.y <= B26 && -B26 <= r.direction.z
        && r.direction.z <= B26 && -B38 <= r.time && r.time <= B38
}

/// When the scene is a single rectangle with a constant emissive material
/// and the ray lands on it, the returned radiance is exactly the emission;
/// when the crossing misses, it is exactly black.
pub open spec fn emissive_rect_radiance(world: Hitable, r: Ray, c: Vec3) -> bool {
    match world {
        Hitable::Rect(rc) => match *rc.material {
            crate::material::Material::DiffuseLight(dl) => match *dl.emit {
                crate::texture::Texture::Constant(ct) => {
                    &&& (crate::rectangle::rect_accepts(rc, r, T_EPS as int, B38 as int) ==> c
                        == ct.color)
                    &&& (!crate::rectangle::rect_accepts(rc, r, T_EPS as int, B38 as int) ==> c
                        == (Vec3 { x: 0i64, y: 0i64, z: 0i64 }))
                },
                _ => true,
            },
            _ => true,
        },
        _ => true,
    }
}

/// Whether a scattered ray can be followed: its fields inside the query
/// bounds and its attenuation inside the color bound.
pub open spec fn bounce_usable(sr: crate::material::ScatterRecord) -> bool {
    &&& vec_within(sr.scattered.origin, B33 as int)
    &&& vec_within(sr.scattered.direction, B26 as int)
    &&& within(sr.scattered.time as int, B38 as int)
    &&& vec_within(sr.attenuation, B30 as int)
}

/// One allowed scatter outcome together with a bounded value for the
/// bounced radiance; when the scattered ray is usable, the value is one
/// its own radiance query allows.
pub open spec fn bounce_step(
    world: Hitable,
    m: crate::material::Material,
    r: Ray,
    rec: crate::hitable::HitRecord,
    sr: crate::material::ScatterRecord,
    b: Vec3,
) -> bool {
    &&& crate::material::scatter_ok(m, r, rec, Option::Some(sr))
    &&& vec_within(b, B30 as int)
    &&& (bounce_usable(sr) ==> color_ok(world, sr.scattered, b))
}

/// The recursion equation at one hit: the result is the emission at the
/// depth cap; otherwise the emission when the surface absorbs (or the
/// scattered ray is unusable), and the emission plus the saturating
/// attenuated bounced value when it scatters.
pub open spec fn radiance_of_hit(
    world: Hitable,
    r: Ray,
    depth: int,
    rec: crate::hitable::HitRecord,
    c: Vec3,
) -> bool {
    exists|e: Vec3|
        (#[trigger] crate::material::emitted_ok(*rec.material, rec.u as int, rec.v as int, rec.p, e))
            && if depth >= MAX_DEPTH as int {
            c == e
        } else {
            (crate::material::scatter_ok(*rec.material, r, rec, Option::None) && c == e) || (
            exists|sr: crate::material::ScatterRecord, b: Vec3|
                (#[trigger] bounce_step(world, *rec.material, r, rec, sr, b)) && ((bounce_usable(
                    sr,
                ) && c == sat_add_spec(e, sat_mul_spec(sr.attenuation, b))) || (!bounce_usable(sr)
                    && c == e)))
        }
}

/// What one radiance query promises of its result: a bounded color, exact
/// black for an empty scene, and the exact emission (or black) for the
/// single-emissive-rectangle scene family.
pub open spec fn color_ok(world: Hitable, r: Ray, c: Vec3) -> bool {
    &&& vec_within(c, B30 as int)
    &&& (world matches Hitable::List(l) && l.hitables@.len() == 0 ==> c == (Vec3 {
        x: 0i64,
        y: 0i64,
        z: 0i64,
    }))
    &&& emissive_rect_radiance(world, r, c)
}

/// Radiance carried back along a ray: black on a miss, the surface's
/// emission plus the attenuated radiance of the scattered ray otherwise.
/// The recursion provably terminates at depth `MAX_DEPTH`, and a query
/// against an empty scene returns exactly black.
pub fn color(r: &Ray, world: &Hitable, depth: u32) -> (c: Vec3)
    requires
        hitable_wf(*world),
        vec_within(r.origin, B33 as int),
        vec_within(r.direction, B26 as int),
        within(r.time as int, B38 as int),
        depth <= MAX_DEPTH,
    ensures
        color_ok(*world, *r, c),
        vec_within(c, B30 as int),
        (forall|rec: crate::hitable::HitRecord|
            !(#[trigger] crate::hitable::hit_ok(
                *world,
                *r,
                T_EPS as int,
                B38 as int,
                Option::Some(rec),
            ))) ==> c == (Vec3 { x: 0i64, y: 0i64, z: 0i64 }),
        (crate::hitable::hit_ok(*world, *r, T_EPS as int, B38 as int, Option::None) && c == (
        Vec3 { x: 0i64, y: 0i64, z: 0i64 })) || (exists|rec: crate::hitable::HitRecord|
            (#[trigger] crate::hitable::hit_ok(
                *world,
                *r,
                T_EPS as int,
                B38 as int,
                Option::Some(rec),
            )) && crate::hitable::rec_wf(rec, T_EPS as int, B38 as int) && radiance_of_hit(
                *world,
                *r,
                depth as int,
                rec,
                c,
            )),
    decreases MAX_DEPTH - depth,
{
    match world.hit(r, T_EPS, B38) {
        Option::Some(rec) => {
            let ghost grec = rec;
            let emitted = rec.material.emitted(rec.u, rec.v, &rec.p);
            let ghost ge = emitted;
            let out: Vec3 = if depth < MAX_DEPTH {
                match rec.material.scatter(r, &rec) {
                    Option::Some(sr) => {
                        let ghost gsr = sr;
                        if ray_in_bounds(&sr.scattered) && in_color_range(&sr.attenuation) {
                            let bounced = color(&sr.scattered, world, depth + 1);
                            let res = sat_add(emitted, sat_mul(sr.attenuation, bounced));
                            proof {
                                assert(bounce_step(*world, *grec.material, *r, grec, gsr, bounced));
                            }
                            res
                        } else {
                            proof {
                                assert(bounce_step(
                                    *world,
                                    *grec.material,
                                    *r,
                                    grec,
                                    gsr,
                                    Vec3 { x: 0i64, y: 0i64, z: 0i64 },
                                ));
                            }
                            emitted
                        }
                    },
                    Option::None => emitted,
                }
            } else {
                emitted
            };
            proof {
                assert(crate::material::emitted_ok(
                    *grec.material,
                    grec.u as int,
                    grec.v as int,
                    grec.p,
                    ge,
                ));
                assert(radiance_of_hit(*world, *r, depth as int, grec, out));
            }
            out
        },
        Option::None => Vec3::zeros(),
    }
}

} // verus!
