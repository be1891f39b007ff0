//! A constant-density participating medium: the ray's span through its
//! boundary is found with two successive queries, and an exponential
//! free-flight distance decides whether the ray scatters inside.

use std::sync::Arc;
use vstd::prelude::*;

use crate::hitable::{rec_wf, HitRecord, Hitable};
use crate::material::{arc_dup, Isotropic, Material};
use crate::math::{div_i128, B38, SCALE};
use crate::ray::Ray;
use crate::rng::rand_below;
use crate::texture::Texture;
use crate::trig::neg_ln_fp;
use crate::vec3::Vec3;

verus! {

pub struct ConstantMedium {
    pub boundary: Box<Hitable>,
    pub density: i64,
    pub phase_function: Arc<Material>,
}

/// The free-flight decision over the drawn number `u`, exactly: the
/// distance `-ln(u / SCALE) / density` must land inside the clipped span
/// `(t2 - t1) * |direction|`, and the returned parameter is the entry plus
/// the distance converted back to ray-parameter units, accepted only
/// strictly inside the query interval.
pub open spec fn medium_decide_spec(
    u: int,
    density: int,
    t1: int,
    t2: int,
    len: int,
    t_min: int,
    t_max: int,
) -> Option<i64> {
    let hd = crate::math::div0(crate::trig::neg_ln_spec(u) * SCALE as int, density);
    let dist = crate::math::div0((t2 - t1) * len, SCALE as int);
    if hd < dist {
        let dt = crate::math::div0(hd * SCALE as int, len);
        if 0 <= dt < B38 as int {
            let t = t1 + dt;
            if t_min < t < t_max {
                Option::Some(t as i64)
            } else {
                Option::None
            }
        } else {
            Option::None
        }
    } else {
        Option::None
    }
}

/// Decide where along the clipped span the medium scatters, given the
/// drawn number as a plain value.
pub fn medium_decide(
    u: i64,
    density: i64,
    t1: i64,
    t2: i64,
    len: i64,
    t_min: i64,
    t_max: i64,
) -> (res: Option<i64>)
    requires
        1 <= u < SCALE,
        1 <= density <= crate::math::B30,
        crate::math::within(t1 as int, B38 as int),
        crate::math::within(t2 as int, B38 as int),
        t1 <= t2,
        1 <= len <= 2 * crate::math::B26,
        crate::math::within(t_min as int, B38 as int),
        crate::math::within(t_max as int, B38 as int),
    ensures
        res == medium_decide_spec(
            u as int,
            density as int,
            t1 as int,
            t2 as int,
            len as int,
            t_min as int,
            t_max as int,
        ),
        res matches Option::Some(t) ==> t_min < t < t_max,
{
    let nl: i64 = neg_ln_fp(u);
    proof {
        crate::math::lemma_mul_within(nl as int, SCALE as int, 1000000, SCALE as int);
        crate::math::lemma_div0_within(
            nl as int * SCALE as int,
            density as int,
            1000000 * SCALE as int,
        );
    }
    let hd: i64 = div_i128((nl as i128) * (SCALE as i128), density as i128) as i64;
    proof {
        crate::math::lemma_mul_within(
            (t2 - t1) as int,
            len as int,
            2 * B38 as int,
            2 * crate::math::B26 as int,
        );
        crate::math::lemma_div0_within(
            (t2 - t1) as int * len as int,
            SCALE as int,
            (2 * B38 as int) * (2 * crate::math::B26 as int),
        );
    }
    let dist: i64 = div_i128(((t2 as i128) - (t1 as i128)) * (len as i128), SCALE as i128) as i64;
    if hd < dist {
        proof {
            crate::math::lemma_mul_within(
                hd as int,
                SCALE as int,
                1000000 * SCALE as int,
                SCALE as int,
            );
            crate::math::lemma_div0_within(
                hd as int * SCALE as int,
                len as int,
                (1000000 * SCALE as int) * SCALE as int,
            );
        }
        let dt: i64 = div_i128((hd as i128) * (SCALE as i128), len as i128) as i64;
        if dt < 0 || dt >= B38 {
            return Option::None;
        }
        let t: i64 = t1 + dt;
        if t <= t_min || t >= t_max {
            return Option::None;
        }
        Option::Some(t)
    } else {
        Option::None
    }
}

/// The full chain behind a medium hit: two allowed boundary outcomes give
/// the entry and exit, the span is clipped to the query interval and to
/// zero, the direction length is the crate's fixed-point length, and the
/// drawn number decides the returned parameter through
/// `medium_decide_spec`; the record carries the point on the ray, the
/// fixed normal and the phase material.
pub open spec fn medium_chain(
    m: ConstantMedium,
    r: Ray,
    t_min: int,
    t_max: int,
    rec1: HitRecord,
    rec2: HitRecord,
    u: int,
    rec: HitRecord,
) -> bool {
    let t1a = if rec1.t < t_min {
        t_min
    } else {
        rec1.t as int
    };
    let t2a = if rec2.t > t_max {
        t_max
    } else {
        rec2.t as int
    };
    let t1b = if t1a < 0 {
        0
    } else {
        t1a
    };
    let len = crate::math::sqrt_floor(
        crate::vec3::sdot(r.direction, r.direction) as nat,
    ) as int;
    &&& crate::hitable::hit_ok(*m.boundary, r, -B38 as int, B38 as int, Option::Some(rec1))
    &&& rec1.t < B38 - 8
    &&& crate::hitable::hit_ok(
        *m.boundary,
        r,
        rec1.t as int + 7,
        B38 as int,
        Option::Some(rec2),
    )
    &&& t1a < t2a
    &&& t1b < t2a
    &&& len >= 1
    &&& 1 <= u < SCALE as int
    &&& medium_decide_spec(u, m.density as int, t1b, t2a, len, t_min, t_max) == Option::Some(
        rec.t,
    )
    &&& rec.u == 0
    &&& rec.v == 0
    &&& rec.p == crate::ray::ray_at(r, rec.t as int)
    &&& rec.normal == (crate::vec3::Vec3 { x: SCALE, y: 0i64, z: 0i64 })
    &&& rec.material == m.phase_function
}

impl ConstantMedium {
    pub fn new(boundary: Box<Hitable>, density: i64, texture: Texture) -> (r: ConstantMedium)
        requires
            1 <= density <= crate::math::B30,
        ensures
            r.boundary == boundary,
            r.density == density,
            *r.phase_function == Material::Isotropic(
                crate::material::Isotropic { albedo: Box::new(texture) },
            ),
    {
        ConstantMedium {
            boundary,
            density,
            phase_function: Arc::new(Material::Isotropic(Isotropic::new(texture))),
        }
    }

    /// Probe the boundary for the entry and exit parameters, clip to the
    /// query interval, and scatter at an exponentially drawn distance when
    /// it falls inside the clipped span. Two calls on one ray may disagree:
    /// the contract states only what holds of every outcome.
    pub fn hit(&self, r: &Ray, t_min: i64, t_max: i64) -> (res: Option<HitRecord>)
        requires
            crate::hitable::hitable_wf(Hitable::Medium(*self)),
            crate::hitable::ray_wf(*r, t_min as int, t_max as int),
        ensures
            res matches Option::Some(rec) ==> rec_wf(rec, t_min as int, t_max as int),
            crate::hitable::hit_ok(
                Hitable::Medium(*self),
                *r,
                t_min as int,
                t_max as int,
                res,
            ),
            res matches Option::Some(rec) ==> exists|rec1: HitRecord, rec2: HitRecord, u: int|
                #[trigger] medium_chain(*self, *r, t_min as int, t_max as int, rec1, rec2, u, rec),
        decreases *self,
    {
        let rec1 = match self.boundary.hit(r, -B38, B38) {
            Option::Some(rec) => rec,
            Option::None => {
                return Option::None;
            },
        };
        let ghost grec1 = rec1;
        if rec1.t >= B38 - 8 {
            return Option::None;
        }
        let rec2 = match self.boundary.hit(r, rec1.t + 7, B38) {
            Option::Some(rec) => rec,
            Option::None => {
                return Option::None;
            },
        };
        let ghost grec2 = rec2;
        let mut t1: i64 = rec1.t;
        let mut t2: i64 = rec2.t;
        if t1 < t_min {
            t1 = t_min;
        }
        if t2 > t_max {
            t2 = t_max;
        }
        if t1 >= t2 {
            return Option::None;
        }
        if t1 < 0 {
            t1 = 0;
        }
        if t1 >= t2 {
            return Option::None;
        }
        proof {
            crate::math::lemma_mul_within(
                r.direction.x as int,
                r.direction.x as int,
                crate::math::B26 as int,
                crate::math::B26 as int,
            );
            crate::math::lemma_mul_within(
                r.direction.y as int,
                r.direction.y as int,
                crate::math::B26 as int,
                crate::math::B26 as int,
            );
            crate::math::lemma_mul_within(
                r.direction.z as int,
                r.direction.z as int,
                crate::math::B26 as int,
                crate::math::B26 as int,
            );
            assert(r.direction.x as int * r.direction.x as int >= 0 && r.direction.y as int
                * r.direction.y as int >= 0 && r.direction.z as int * r.direction.z as int >= 0)
                by (nonlinear_arith);
            crate::math::lemma_sqrt_below(
                crate::vec3::sdot(r.direction, r.direction) as nat,
                (2 * crate::math::B26 as int) as nat,
            );
            assert(3 * (crate::math::B26 as int * crate::math::B26 as int) < (2
                * crate::math::B26 as int) * (2 * crate::math::B26 as int)) by (nonlinear_arith)
                requires
                    crate::math::B26 as int == 0x400_0000,
            ;
        }
        let len: i64 = r.direction.length();
        if len == 0 {
            return Option::None;
        }
        let u: i64 = rand_below((SCALE - 1) as u64) as i64 + 1;
        match medium_decide(u, self.density, t1, t2, len, t_min, t_max) {
            Option::Some(t) => {
                proof {
                    crate::ray::lemma_ray_at_bounds(*r, t as int);
                }
                let p = r.point_at_parameter(t);
                let out = HitRecord {
                    t,
                    u: 0,
                    v: 0,
                    p,
                    normal: Vec3::new(SCALE, 0, 0),
                    material: arc_dup(&self.phase_function),
                };
                proof {
                    assert(medium_chain(
                        *self,
                        *r,
                        t_min as int,
                        t_max as int,
                        grec1,
                        grec2,
                        u as int,
                        out,
                    ));
                }
                Option::Some(out)
            },
            Option::None => Option::None,
        }
    }
}

} // verus!
