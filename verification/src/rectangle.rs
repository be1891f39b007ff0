//! Axis-aligned flat rectangles on one of the three coordinate planes.

use std::sync::Arc;
use vstd::prelude::*;

use crate::aabb::AABB;
use crate::hitable::{rec_wf, HitRecord};
use crate::material::{arc_dup, material_wf, Material};
use crate::math::{div0, div_i128, within, B30, B33, SCALE};
use crate::ray::{ray_at, Ray};
use crate::vec3::Vec3;

verus! {

/// The coordinate plane a rectangle lies in, fixing the roles of the two
/// in-plane axes `a, b` and the constant axis `k`.
pub enum Plane {
    XY,
    YZ,
    ZX,
}

pub struct Rectangle {
    pub plane: Plane,
    pub a0: i64,
    pub a1: i64,
    pub b0: i64,
    pub b1: i64,
    pub k: i64,
    pub material: Arc<Material>,
}

pub open spec fn rect_wf(rc: Rectangle) -> bool {
    &&& rc.a0 < rc.a1
    &&& rc.b0 < rc.b1
    &&& within(rc.a0 as int, B30 as int)
    &&& within(rc.a1 as int, B30 as int)
    &&& within(rc.b0 as int, B30 as int)
    &&& within(rc.b1 as int, B30 as int)
    &&& within(rc.k as int, B30 as int)
    &&& material_wf(*rc.material)
}

/// The axis roles of a plane tag: `(a, b, k)` as component indices into
/// `(x, y, z)`.
pub open spec fn plane_axes(p: Plane) -> (int, int, int) {
    match p {
        Plane::XY => (0, 1, 2),
        Plane::YZ => (1, 2, 0),
        Plane::ZX => (2, 0, 1),
    }
}

pub open spec fn axis_of(v: Vec3, a: int) -> int {
    if a == 0 {
        v.x as int
    } else if a == 1 {
        v.y as int
    } else {
        v.z as int
    }
}

/// The plane-crossing parameter `(k - origin_k) / direction_k`, rounded
/// toward zero; no crossing when the direction is parallel to the plane.
pub open spec fn rect_t(rc: Rectangle, r: Ray) -> Option<int> {
    let (_, _, ka) = plane_axes(rc.plane);
    let ok = axis_of(r.origin, ka);
    let dk = axis_of(r.direction, ka);
    if dk == 0 {
        Option::None
    } else if dk > 0 {
        Option::Some(div0((rc.k as int - ok) * SCALE as int, dk))
    } else {
        Option::Some(div0(-((rc.k as int - ok) * SCALE as int), -dk))
    }
}

/// What a rectangle query returns, exactly: the crossing parameter must
/// exist and lie strictly inside the interval, the in-plane coordinates
/// inside the rectangle; the record carries the crossing point, the fixed
/// axis normal and the normalized in-plane coordinates.
pub open spec fn rect_hit_ok(
    rc: Rectangle,
    r: Ray,
    t_min: int,
    t_max: int,
    res: Option<HitRecord>,
) -> bool {
    let (aa, ba, _) = plane_axes(rc.plane);
    match rect_t(rc, r) {
        Option::None => res is None,
        Option::Some(t) => {
            let p = ray_at(r, t);
            let av = axis_of(p, aa);
            let bv = axis_of(p, ba);
            if !(t_min < t < t_max) || av < rc.a0 || av > rc.a1 || bv < rc.b0 || bv > rc.b1 {
                res is None
            } else {
                match res {
                    Option::Some(rec) => {
                        &&& rec.t == t
                        &&& rec.p == p
                        &&& rec.u == div0((av - rc.a0) * SCALE as int, rc.a1 - rc.a0)
                        &&& rec.v == div0((bv - rc.b0) * SCALE as int, rc.b1 - rc.b0)
                        &&& rec.normal == rect_normal(rc.plane)
                        &&& *rec.material == *rc.material
                    },
                    Option::None => false,
                }
            }
        },
    }
}

/// Whether the rectangle accepts the ray over `(t_min, t_max)`: the
/// crossing exists, lies strictly inside the interval, and lands inside
/// the rectangle's bounds.
pub open spec fn rect_accepts(rc: Rectangle, r: Ray, t_min: int, t_max: int) -> bool {
    let (aa, ba, _) = plane_axes(rc.plane);
    match rect_t(rc, r) {
        Option::Some(t) => {
            let p = ray_at(r, t);
            let av = axis_of(p, aa);
            let bv = axis_of(p, ba);
            t_min < t < t_max && rc.a0 <= av <= rc.a1 && rc.b0 <= bv <= rc.b1
        },
        Option::None => false,
    }
}

/// The unique record a rectangle query reports: the crossing parameter
/// when it lies strictly inside the interval and lands inside the bounds,
/// with the exact parametrization, the fixed normal and the rectangle's
/// own material handle.
pub open spec fn rect_outcome(rc: Rectangle, r: Ray, t_min: int, t_max: int) -> Option<
    HitRecord,
> {
    let (aa, ba, _) = plane_axes(rc.plane);
    match rect_t(rc, r) {
        Option::None => Option::None,
        Option::Some(t) => {
            let p = ray_at(r, t);
            let av = axis_of(p, aa);
            let bv = axis_of(p, ba);
            if !(t_min < t < t_max) || av < rc.a0 || av > rc.a1 || bv < rc.b0 || bv > rc.b1 {
                Option::None
            } else {
                Option::Some(
                    HitRecord {
                        t: t as i64,
                        u: div0((av - rc.a0) * SCALE as int, rc.a1 - rc.a0) as i64,
                        v: div0((bv - rc.b0) * SCALE as int, rc.b1 - rc.b0) as i64,
                        p,
                        normal: rect_normal(rc.plane),
                        material: rc.material,
                    },
                )
            }
        },
    }
}

/// The fixed unit normal along the constant axis.
pub open spec fn rect_normal(p: Plane) -> Vec3 {
    match p {
        Plane::XY => Vec3 { x: 0i64, y: 0i64, z: SCALE },
        Plane::YZ => Vec3 { x: SCALE, y: 0i64, z: 0i64 },
        Plane::ZX => Vec3 { x: 0i64, y: SCALE, z: 0i64 },
    }
}

fn axis_get(v: &Vec3, a: u8) -> (r: i64)
    requires
        a < 3,
    ensures
        r as int == axis_of(*v, a as int),
{
    if a == 0 {
        v.x
    } else if a == 1 {
        v.y
    } else {
        v.z
    }
}

/// `(x - lo) * SCALE / (hi - lo)` lands in `[0, SCALE]` for `x` in
/// `[lo, hi]`.
proof fn lemma_unit_span(x: int, lo: int, hi: int)
    requires
        lo <= x <= hi,
        lo < hi,
        within(lo, B30 as int),
        within(hi, B30 as int),
    ensures
        0 <= div0((x - lo) * SCALE as int, hi - lo) <= SCALE as int,
        within((x - lo) * SCALE as int, (2 * B30 as int) * SCALE as int),
{
    assert(0 <= (x - lo) * SCALE as int <= (hi - lo) * SCALE as int && (x - lo) * SCALE as int
        <= (2 * B30 as int) * SCALE as int) by (nonlinear_arith)
        requires
            0 <= x - lo <= hi - lo,
            hi - lo <= 2 * B30 as int,
            SCALE as int > 0,
    ;
    vstd::arithmetic::div_mod::lemma_div_is_ordered(
        (x - lo) * SCALE as int,
        SCALE as int * (hi - lo),
        hi - lo,
    );
    vstd::arithmetic::div_mod::lemma_div_by_multiple(SCALE as int, hi - lo);
    assert((hi - lo) * SCALE as int == SCALE as int * (hi - lo)) by (nonlinear_arith);
    vstd::arithmetic::div_mod::lemma_div_pos_is_pos((x - lo) * SCALE as int, hi - lo);
}

/// The rectangle's box: its flat bounds, inflated seven fixed-point steps
/// (about `1e-4` of a unit) along the constant axis.
pub open spec fn rect_box(rc: Rectangle) -> AABB {
    match rc.plane {
        Plane::XY => AABB {
            min: Vec3 { x: rc.a0, y: rc.b0, z: (rc.k - 7) as i64 },
            max: Vec3 { x: rc.a1, y: rc.b1, z: (rc.k + 7) as i64 },
        },
        Plane::YZ => AABB {
            min: Vec3 { x: (rc.k - 7) as i64, y: rc.a0, z: rc.b0 },
            max: Vec3 { x: (rc.k + 7) as i64, y: rc.a1, z: rc.b1 },
        },
        Plane::ZX => AABB {
            min: Vec3 { x: rc.b0, y: (rc.k - 7) as i64, z: rc.a0 },
            max: Vec3 { x: rc.b1, y: (rc.k + 7) as i64, z: rc.a1 },
        },
    }
}

impl Rectangle {
    pub fn new(
        plane: Plane,
        a0: i64,
        a1: i64,
        b0: i64,
        b1: i64,
        k: i64,
        material: Arc<Material>,
    ) -> (r: Rectangle)
        ensures
            r == (Rectangle { plane, a0, a1, b0, b1, k, material }),
    {
        Rectangle { plane, a0, a1, b0, b1, k, material }
    }

    pub fn hit(&self, r: &Ray, t_min: i64, t_max: i64) -> (res: Option<HitRecord>)
        requires
            rect_wf(*self),
            crate::hitable::ray_wf(*r, t_min as int, t_max as int),
        ensures
            rect_hit_ok(*self, *r, t_min as int, t_max as int, res),
            res == rect_outcome(*self, *r, t_min as int, t_max as int),
            res matches Option::Some(rec) ==> rec_wf(rec, t_min as int, t_max as int),
    {
        let (a_axis, b_axis, k_axis): (u8, u8, u8) = match self.plane {
            Plane::XY => (0, 1, 2),
            Plane::YZ => (1, 2, 0),
            Plane::ZX => (2, 0, 1),
        };
        let ok: i64 = axis_get(&r.origin, k_axis);
        let dk: i64 = axis_get(&r.direction, k_axis);
        if dk == 0 {
            return Option::None;
        }
        proof {
            crate::math::lemma_mul_within(
                self.k as int - ok as int,
                SCALE as int,
                B30 as int + B33 as int,
                SCALE as int,
            );
            crate::math::lemma_div0_within(
                (self.k as int - ok as int) * SCALE as int,
                if dk > 0 {
                    dk as int
                } else {
                    -(dk as int)
                },
                (B30 as int + B33 as int) * SCALE as int,
            );
        }
        let t128: i128 = div_i128(
            ((self.k as i128) - (ok as i128)) * (SCALE as i128),
            dk as i128,
        );
        if t128 <= t_min as i128 || t128 >= t_max as i128 {
            return Option::None;
        }
        let t: i64 = t128 as i64;
        proof {
            crate::ray::lemma_ray_at_bounds(*r, t as int);
        }
        let p: Vec3 = r.point_at_parameter(t);
        let av: i64 = axis_get(&p, a_axis);
        let bv: i64 = axis_get(&p, b_axis);
        if av < self.a0 || av > self.a1 || bv < self.b0 || bv > self.b1 {
            return Option::None;
        }
        proof {
            lemma_unit_span(av as int, self.a0 as int, self.a1 as int);
            lemma_unit_span(bv as int, self.b0 as int, self.b1 as int);
        }
        let u: i64 = div_i128(
            ((av as i128) - (self.a0 as i128)) * (SCALE as i128),
            (self.a1 as i128) - (self.a0 as i128),
        ) as i64;
        let v: i64 = div_i128(
            ((bv as i128) - (self.b0 as i128)) * (SCALE as i128),
            (self.b1 as i128) - (self.b0 as i128),
        ) as i64;
        let normal: Vec3 = match self.plane {
            Plane::XY => Vec3::new(0, 0, SCALE),
            Plane::YZ => Vec3::new(SCALE, 0, 0),
            Plane::ZX => Vec3::new(0, SCALE, 0),
        };
        Option::Some(
            HitRecord { t, u, v, p, normal, material: arc_dup(&self.material) },
        )
    }

    /// The flat bounds, inflated seven fixed-point steps (about `1e-4` of
    /// a unit) along the constant axis so the degenerate box passes slab
    /// tests.
    pub fn bounding_box(&self, _t0: i64, _t1: i64) -> (res: Option<AABB>)
        requires
            rect_wf(*self),
        ensures
            res == Option::Some(rect_box(*self)),
            res matches Option::Some(b) ==> crate::aabb::hit_box_wf(b) && crate::aabb::aabb_wf(b),
    {
        let bbox = match self.plane {
            Plane::XY => AABB::new(
                Vec3::new(self.a0, self.b0, self.k - 7),
                Vec3::new(self.a1, self.b1, self.k + 7),
            ),
            Plane::YZ => AABB::new(
                Vec3::new(self.k - 7, self.a0, self.b0),
                Vec3::new(self.k + 7, self.a1, self.b1),
            ),
            Plane::ZX => AABB::new(
                Vec3::new(self.b0, self.k - 7, self.a0),
                Vec3::new(self.b1, self.k + 7, self.a1),
            ),
        };
        Option::Some(bbox)
    }
}

} // verus!
