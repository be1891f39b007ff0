//! Rigid wrappers: translate a child along an offset, or rotate it about
//! the y axis. Both transform the query ray into the child's frame and the
//! resulting record back out, rejecting queries that would leave the
//! working bounds.

use vstd::prelude::*;

use crate::aabb::{hit_box_wf, AABB};
use crate::hitable::{rec_wf, HitRecord, Hitable};
use crate::math::{div0, div_i128, within, B26, B33, B38, B57, SCALE};
use crate::ray::Ray;
use crate::trig::{cos_fp, sin_fp, PI_FP};
use crate::vec3::{vec_within, Vec3};

verus! {

pub struct Translate {
    pub hitable: Box<Hitable>,
    pub offset: Vec3,
}

pub struct Rotate {
    pub hitable: Box<Hitable>,
    pub sin_theta: i64,
    pub cos_theta: i64,
    pub bbox: Option<AABB>,
}

impl Translate {
    pub fn new(hitable: Box<Hitable>, offset: Vec3) -> (r: Translate)
        ensures
            r.hitable == hitable,
            r.offset == offset,
    {
        Translate { hitable, offset }
    }

    pub fn hit(&self, r: &Ray, t_min: i64, t_max: i64) -> (res: Option<HitRecord>)
        requires
            crate::hitable::hitable_wf(Hitable::Translated(*self)),
            crate::hitable::ray_wf(*r, t_min as int, t_max as int),
        ensures
            res matches Option::Some(rec) ==> rec_wf(rec, t_min as int, t_max as int),
            crate::hitable::hit_ok(
                Hitable::Translated(*self),
                *r,
                t_min as int,
                t_max as int,
                res,
            ),
            crate::hitable::det_hit(
                Hitable::Translated(*self),
                *r,
                t_min as int,
                t_max as int,
            ) matches Option::Some(out) ==> res == out,
            ({
                let moved = Ray {
                    origin: crate::hitable::unshift_vec(r.origin, self.offset),
                    direction: r.direction,
                    time: r.time,
                };
                vec_within(moved.origin, B33 as int) && res is None ==> crate::hitable::hit_ok(
                    *self.hitable,
                    moved,
                    t_min as int,
                    t_max as int,
                    Option::None,
                ) || (exists|inner: HitRecord|
                (#[trigger] crate::hitable::hit_ok(
                    *self.hitable,
                    moved,
                    t_min as int,
                    t_max as int,
                    Option::Some(inner),
                )) && !vec_within(
                    crate::hitable::shift_vec(inner.p, self.offset),
                    B57 as int,
                ))
            }),
        decreases *self,
    {
        let moved_origin = Vec3::new(
            r.origin.x - self.offset.x,
            r.origin.y - self.offset.y,
            r.origin.z - self.offset.z,
        );
        if !clamp_check(&moved_origin, B33) {
            return Option::None;
        }
        let moved = Ray::new(moved_origin, r.direction, r.time);
        proof {
            assert(moved == (Ray {
                origin: crate::hitable::unshift_vec(r.origin, self.offset),
                direction: r.direction,
                time: r.time,
            }));
        }
        match self.hitable.hit(&moved, t_min, t_max) {
            Option::Some(rec) => {
                let ghost inner = rec;
                let p = Vec3::new(
                    rec.p.x + self.offset.x,
                    rec.p.y + self.offset.y,
                    rec.p.z + self.offset.z,
                );
                if !clamp_check(&p, B57) {
                    proof {
                        assert(p == crate::hitable::shift_vec(inner.p, self.offset));
                        assert(crate::hitable::hit_ok(
                            *self.hitable,
                            moved,
                            t_min as int,
                            t_max as int,
                            Option::Some(inner),
                        ) && !vec_within(
                            crate::hitable::shift_vec(inner.p, self.offset),
                            B57 as int,
                        ));
                    }
                    return Option::None;
                }
                let shifted = HitRecord { p, ..rec };
                proof {
                    assert(crate::hitable::unshift_vec(shifted.p, self.offset) == inner.p);
                }
                Option::Some(shifted)
            },
            Option::None => Option::None,
        }
    }

    pub fn bounding_box(&self, t0: i64, t1: i64) -> (res: Option<AABB>)
        requires
            crate::hitable::hitable_wf(Hitable::Translated(*self)),
            within(t0 as int, B38 as int),
            within(t1 as int, B38 as int),
        ensures
            res == crate::hitable::bbox_spec(Hitable::Translated(*self), t0 as int, t1 as int),
            res matches Option::Some(b) ==> hit_box_wf(b),
        decreases *self,
    {
        match self.hitable.bounding_box(t0, t1) {
            Option::Some(b) => {
                let mn = Vec3::new(
                    b.min.x + self.offset.x,
                    b.min.y + self.offset.y,
                    b.min.z + self.offset.z,
                );
                let mx = Vec3::new(
                    b.max.x + self.offset.x,
                    b.max.y + self.offset.y,
                    b.max.z + self.offset.z,
                );
                if clamp_check(&mn, 8 * B33) && clamp_check(&mx, 8 * B33) {
                    Option::Some(AABB::new(mn, mx))
                } else {
                    Option::None
                }
            },
            Option::None => Option::None,
        }
    }
}

/// Whether every component lies within `bound`.
fn clamp_check(v: &Vec3, bound: i64) -> (r: bool)
    requires
        bound >= 0,
    ensures
        r == vec_within(*v, bound as int),
{
    -bound <= v.x && v.x <= bound && -bound <= v.y && v.y <= bound && -bound <= v.z && v.z
        <= bound
}

/// `cos * a + sin * b` at fixed point, for quasi-unit `cos`/`sin`.
fn rot_comb(c: i64, s: i64, a: i64, b: i64) -> (r: i64)
    requires
        within(c as int, SCALE as int),
        within(s as int, SCALE as int),
        within(a as int, B57 as int),
        within(b as int, B57 as int),
    ensures
        r == div0(c as int * a as int, SCALE as int) + div0(s as int * b as int, SCALE as int),
        within(r as int, 2 * B57 as int),
{
    proof {
        crate::math::lemma_mul_within(c as int, a as int, SCALE as int, B57 as int);
        crate::math::lemma_mul_within(s as int, b as int, SCALE as int, B57 as int);
        crate::math::lemma_div0_within(
            c as int * a as int,
            SCALE as int,
            SCALE as int * B57 as int,
        );
        crate::math::lemma_div0_within(
            s as int * b as int,
            SCALE as int,
            SCALE as int * B57 as int,
        );
        vstd::arithmetic::div_mod::lemma_div_by_multiple(B57 as int, SCALE as int);
        assert(SCALE as int * B57 as int == B57 as int * SCALE as int) by (nonlinear_arith);
    }
    let t1: i64 = div_i128((c as i128) * (a as i128), SCALE as i128) as i64;
    let t2: i64 = div_i128((s as i128) * (b as i128), SCALE as i128) as i64;
    t1 + t2
}

/// One corner of a box, indexed `0..8` by the three low bits of `k`.
pub open spec fn corner_of(b: AABB, k: int) -> (int, int, int) {
    (
        if k % 2 == 0 {
            b.min.x as int
        } else {
            b.max.x as int
        },
        if (k / 2) % 2 == 0 {
            b.min.y as int
        } else {
            b.max.y as int
        },
        if k / 4 == 0 {
            b.min.z as int
        } else {
            b.max.z as int
        },
    )
}

/// Fold the componentwise min and max of the eight corners of `b` rotated
/// about the y axis by the fixed-point sine and cosine `s`, `c`.
pub open spec fn rot_fold(b: AABB, c: int, s: int, k: int, mn: Vec3, mx: Vec3) -> (Vec3, Vec3)
    decreases 8 - k,
{
    if !(0 <= k < 8) {
        (mn, mx)
    } else {
        let (cx, cy, cz) = corner_of(b, k);
        let nx = div0(c * cx, SCALE as int) + div0(s * cz, SCALE as int);
        let nz = div0(c * cz, SCALE as int) + div0(-s * cx, SCALE as int);
        let mn1 = Vec3 {
            x: crate::aabb::smin(mn.x as int, nx) as i64,
            y: crate::aabb::smin(mn.y as int, cy) as i64,
            z: crate::aabb::smin(mn.z as int, nz) as i64,
        };
        let mx1 = Vec3 {
            x: crate::aabb::smax(mx.x as int, nx) as i64,
            y: crate::aabb::smax(mx.y as int, cy) as i64,
            z: crate::aabb::smax(mx.z as int, nz) as i64,
        };
        rot_fold(b, c, s, k + 1, mn1, mx1)
    }
}

/// The world box a rotation precomputes: the corner fold of the child's
/// box, kept only when it stays inside the working bound.
pub open spec fn rot_box_spec(child: Option<AABB>, c: int, s: int) -> Option<AABB> {
    match child {
        Option::Some(b) => {
            let (mn, mx) = rot_fold(
                b,
                c,
                s,
                0,
                Vec3 { x: (8 * B33 as int) as i64, y: (8 * B33 as int) as i64, z: (8 * B33 as int) as i64 },
                Vec3 { x: (-(8 * B33)) as i64, y: (-(8 * B33)) as i64, z: (-(8 * B33)) as i64 },
            );
            if vec_within(mn, 8 * B33 as int) && vec_within(mx, 8 * B33 as int) {
                Option::Some(AABB { min: mn, max: mx })
            } else {
                Option::None
            }
        },
        Option::None => Option::None,
    }
}

impl Rotate {
    /// Precompute the rotation's sine and cosine from an angle in degrees,
    /// and a world-space box over the child's eight rotated corners.
    pub fn new(hitable: Box<Hitable>, angle_deg: i64) -> (r: Rotate)
        requires
            crate::hitable::hitable_wf(*hitable),
            within(angle_deg as int, 100000),
        ensures
            r.hitable == hitable,
            r.sin_theta == crate::trig::sin_spec(
                div0(angle_deg as int * PI_FP as int, 180),
            ),
            r.cos_theta == crate::trig::cos_spec(
                div0(angle_deg as int * PI_FP as int, 180),
            ),
            within(r.sin_theta as int, SCALE as int),
            within(r.cos_theta as int, SCALE as int),
            r.bbox == rot_box_spec(
                crate::hitable::bbox_spec(*hitable, 0, SCALE as int),
                r.cos_theta as int,
                r.sin_theta as int,
            ),
    {
        proof {
            crate::math::lemma_mul_within(angle_deg as int, PI_FP as int, 100000, PI_FP as int);
            crate::math::lemma_div0_within(
                angle_deg as int * PI_FP as int,
                180,
                100000 * PI_FP as int,
            );
        }
        let radians: i64 = div_i128(
            (angle_deg as i128) * (PI_FP as i128),
            180,
        ) as i64;
        let sin_theta = sin_fp(radians);
        let cos_theta = cos_fp(radians);
        let ghost child_box = crate::hitable::bbox_spec(*hitable, 0, SCALE as int);
        let bbox = match hitable.bounding_box(0, SCALE) {
            Option::Some(b) => {
                let ghost mn0 = Vec3 { x: (8 * B33 as int) as i64, y: (8 * B33 as int) as i64, z: (8 * B33 as int) as i64 };
                let ghost mx0 = Vec3 {
                    x: (-(8 * B33)) as i64,
                    y: (-(8 * B33)) as i64,
                    z: (-(8 * B33)) as i64,
                };
                let mut mn = Vec3::new(8 * B33, 8 * B33, 8 * B33);
                let mut mx = Vec3::new(-(8 * B33), -(8 * B33), -(8 * B33));
                let mut corner: u8 = 0;
                while corner < 8
                    invariant
                        hit_box_wf(b),
                        within(sin_theta as int, SCALE as int),
                        within(cos_theta as int, SCALE as int),
                        vec_within(mn, 2 * B57 as int),
                        vec_within(mx, 2 * B57 as int),
                        corner <= 8,
                        rot_fold(b, cos_theta as int, sin_theta as int, corner as int, mn, mx)
                            == rot_fold(b, cos_theta as int, sin_theta as int, 0, mn0, mx0),
                    decreases 8 - corner,
                {
                    let cx: i64 = if corner % 2 == 0 {
                        b.min.x
                    } else {
                        b.max.x
                    };
                    let cy: i64 = if (corner / 2) % 2 == 0 {
                        b.min.y
                    } else {
                        b.max.y
                    };
                    let cz: i64 = if corner / 4 == 0 {
                        b.min.z
                    } else {
                        b.max.z
                    };
                    let nx = rot_comb(cos_theta, sin_theta, cx, cz);
                    let nz = rot_comb(cos_theta, -sin_theta, cz, cx);
                    let mn1 = Vec3::new(
                        if nx < mn.x {
                            nx
                        } else {
                            mn.x
                        },
                        if cy < mn.y {
                            cy
                        } else {
                            mn.y
                        },
                        if nz < mn.z {
                            nz
                        } else {
                            mn.z
                        },
                    );
                    let mx1 = Vec3::new(
                        if nx > mx.x {
                            nx
                        } else {
                            mx.x
                        },
                        if cy > mx.y {
                            cy
                        } else {
                            mx.y
                        },
                        if nz > mx.z {
                            nz
                        } else {
                            mx.z
                        },
                    );
                    mn = mn1;
                    mx = mx1;
                    corner = corner + 1;
                }
                if clamp_check(&mn, 8 * B33) && clamp_check(&mx, 8 * B33) {
                    Option::Some(AABB::new(mn, mx))
                } else {
                    Option::None
                }
            },
            Option::None => Option::None,
        };
        Rotate { hitable, sin_theta, cos_theta, bbox }
    }

    pub fn hit(&self, r: &Ray, t_min: i64, t_max: i64) -> (res: Option<HitRecord>)
        requires
            crate::hitable::hitable_wf(Hitable::Rotated(*self)),
            crate::hitable::ray_wf(*r, t_min as int, t_max as int),
        ensures
            res matches Option::Some(rec) ==> rec_wf(rec, t_min as int, t_max as int),
            crate::hitable::hit_ok(
                Hitable::Rotated(*self),
                *r,
                t_min as int,
                t_max as int,
                res,
            ),
            crate::hitable::det_hit(
                Hitable::Rotated(*self),
                *r,
                t_min as int,
                t_max as int,
            ) matches Option::Some(out) ==> res == out,
            ({
                let c = self.cos_theta as int;
                let s = self.sin_theta as int;
                let rotated = Ray {
                    origin: crate::hitable::rot_vec(r.origin, c, -s),
                    direction: crate::hitable::rot_vec(r.direction, c, -s),
                    time: r.time,
                };
                vec_within(rotated.origin, B33 as int) && vec_within(
                    rotated.direction,
                    B26 as int,
                ) ==> match res {
                    Option::Some(rec) => exists|inner: HitRecord|
                    (#[trigger] crate::hitable::hit_ok(
                        *self.hitable,
                        rotated,
                        t_min as int,
                        t_max as int,
                        Option::Some(inner),
                    )) && rec == (HitRecord {
                        t: inner.t,
                        u: inner.u,
                        v: inner.v,
                        p: crate::hitable::rot_vec(inner.p, c, s),
                        normal: crate::hitable::rot_vec(inner.normal, c, s),
                        material: inner.material,
                    }),
                    Option::None => crate::hitable::hit_ok(
                        *self.hitable,
                        rotated,
                        t_min as int,
                        t_max as int,
                        Option::None,
                    ) || (exists|inner: HitRecord|
                    (#[trigger] crate::hitable::hit_ok(
                        *self.hitable,
                        rotated,
                        t_min as int,
                        t_max as int,
                        Option::Some(inner),
                    )) && !(vec_within(
                        crate::hitable::rot_vec(inner.p, c, s),
                        crate::math::B57 as int,
                    ) && vec_within(
                        crate::hitable::rot_vec(inner.normal, c, s),
                        4 * SCALE as int,
                    )))
                }
            }),
        decreases *self,
    {
        let c = self.cos_theta;
        let s = self.sin_theta;
        let origin = Vec3::new(
            rot_comb(c, -s, r.origin.x, r.origin.z),
            r.origin.y,
            rot_comb(c, s, r.origin.z, r.origin.x),
        );
        let direction = Vec3::new(
            rot_comb(c, -s, r.direction.x, r.direction.z),
            r.direction.y,
            rot_comb(c, s, r.direction.z, r.direction.x),
        );
        proof {
            assert(origin == crate::hitable::rot_vec(r.origin, c as int, -(s as int)));
            assert(direction == crate::hitable::rot_vec(r.direction, c as int, -(s as int)));
        }
        if !clamp_check(&origin, B33) || !clamp_check(&direction, B26) {
            return Option::None;
        }
        let rotated = Ray::new(origin, direction, r.time);
        proof {
            assert(rotated == (Ray {
                origin: crate::hitable::rot_vec(r.origin, c as int, -(s as int)),
                direction: crate::hitable::rot_vec(r.direction, c as int, -(s as int)),
                time: r.time,
            }));
        }
        match self.hitable.hit(&rotated, t_min, t_max) {
            Option::Some(rec) => {
                let ghost inner = rec;
                let p = Vec3::new(
                    rot_comb(c, s, rec.p.x, rec.p.z),
                    rec.p.y,
                    rot_comb(c, -s, rec.p.z, rec.p.x),
                );
                let normal = Vec3::new(
                    rot_comb(c, s, rec.normal.x, rec.normal.z),
                    rec.normal.y,
                    rot_comb(c, -s, rec.normal.z, rec.normal.x),
                );
                proof {
                    assert(p == crate::hitable::rot_vec(inner.p, c as int, s as int));
                    assert(normal == crate::hitable::rot_vec(inner.normal, c as int, s as int));
                }
                if !clamp_check(&p, B57) || !clamp_check(&normal, 4 * SCALE) {
                    proof {
                        assert(crate::hitable::hit_ok(
                            *self.hitable,
                            rotated,
                            t_min as int,
                            t_max as int,
                            Option::Some(inner),
                        ) && !(vec_within(
                            crate::hitable::rot_vec(inner.p, c as int, s as int),
                            B57 as int,
                        ) && vec_within(
                            crate::hitable::rot_vec(inner.normal, c as int, s as int),
                            4 * SCALE as int,
                        )));
                    }
                    return Option::None;
                }
                let out = HitRecord { p, normal, ..rec };
                proof {
                    assert(out == (HitRecord {
                        t: inner.t,
                        u: inner.u,
                        v: inner.v,
                        p: crate::hitable::rot_vec(inner.p, c as int, s as int),
                        normal: crate::hitable::rot_vec(inner.normal, c as int, s as int),
                        material: inner.material,
                    }));
                }
                Option::Some(out)
            },
            Option::None => Option::None,
        }
    }

    pub fn bounding_box(&self, _t0: i64, _t1: i64) -> (res: Option<AABB>)
        requires
            crate::hitable::hitable_wf(Hitable::Rotated(*self)),
        ensures
            res == crate::hitable::bbox_spec(
                Hitable::Rotated(*self),
                _t0 as int,
                _t1 as int,
            ),
            res matches Option::Some(b) ==> hit_box_wf(b),
    {
        match self.bbox {
            Option::Some(b) => {
                if clamp_check(&b.min, 8 * B33) && clamp_check(&b.max, 8 * B33) {
                    Option::Some(b)
                } else {
                    Option::None
                }
            },
            Option::None => Option::None,
        }
    }
}

} // verus!
