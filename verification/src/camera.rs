//! The camera: an orthonormal frame and image-plane spans derived from a
//! viewing configuration, and per-sample ray generation with lens and
//! shutter-time sampling.

use vstd::prelude::*;

use crate::math::{div0, div_i128, fp_mul, within, B26, B33, B38, SCALE};
use crate::ray::Ray;
use crate::rng::random_unit;
use crate::trig::{tan_fp, PI_FP};
use crate::vec3::{vec_within, Vec3};

verus! {

#[derive(Clone, Copy)]
pub struct Camera {
    pub origin: Vec3,
    pub lower_left_corner: Vec3,
    pub horizontal: Vec3,
    pub vertical: Vec3,
    pub u: Vec3,
    pub v: Vec3,
    pub w: Vec3,
    pub lens_radius: i64,
    pub time0: i64,
    pub time1: i64,
}

pub open spec fn camera_wf(c: Camera) -> bool {
    &&& vec_within(c.origin, B26 as int)
    &&& vec_within(c.lower_left_corner, 1024 * B26 as int)
    &&& vec_within(c.horizontal, 1024 * B26 as int)
    &&& vec_within(c.vertical, 1024 * B26 as int)
    &&& vec_within(c.u, 2 * SCALE as int)
    &&& vec_within(c.v, 16 * SCALE as int)
    &&& vec_within(c.w, 2 * SCALE as int)
    &&& 0 <= c.lens_radius <= SCALE
    &&& within(c.time0 as int, B38 as int)
    &&& within(c.time1 as int, B38 as int)
    &&& c.time0 <= c.time1
}

pub open spec fn clamp_span_spec(x: int) -> int {
    if x < 0 {
        0
    } else if x > 8 * SCALE as int {
        8 * SCALE as int
    } else {
        x
    }
}

/// The full camera derivation: half the field of view in radians, the
/// saturated image-plane half-spans, the orthonormal frame, and the
/// image-plane corner and span vectors.
pub open spec fn camera_derive(
    lookfrom: Vec3,
    lookat: Vec3,
    vup: Vec3,
    vfov: int,
    aspect: int,
    aperture: int,
    focus_dist: int,
    t0: i64,
    t1: i64,
) -> Camera {
    let half_theta = div0(vfov * crate::trig::PI_FP as int, 360 * SCALE as int);
    let half_height = clamp_span_spec(crate::trig::tan_spec(half_theta));
    let half_width = clamp_span_spec(div0(aspect * half_height, SCALE as int));
    let w = crate::vec3::unit_dir(
        Vec3 {
            x: (lookfrom.x - lookat.x) as i64,
            y: (lookfrom.y - lookat.y) as i64,
            z: (lookfrom.z - lookat.z) as i64,
        },
    );
    let u = crate::vec3::unit_dir(crate::vec3::cross_spec(vup, w));
    let v = crate::vec3::cross_spec(w, u);
    let hw_fd = div0(half_width * focus_dist, SCALE as int);
    let hh_fd = div0(half_height * focus_dist, SCALE as int);
    let lower_left_corner = Vec3 {
        x: (lookfrom.x - div0(hw_fd * u.x, SCALE as int) - div0(hh_fd * v.x, SCALE as int)
            - div0(focus_dist * w.x, SCALE as int)) as i64,
        y: (lookfrom.y - div0(hw_fd * u.y, SCALE as int) - div0(hh_fd * v.y, SCALE as int)
            - div0(focus_dist * w.y, SCALE as int)) as i64,
        z: (lookfrom.z - div0(hw_fd * u.z, SCALE as int) - div0(hh_fd * v.z, SCALE as int)
            - div0(focus_dist * w.z, SCALE as int)) as i64,
    };
    let horizontal = Vec3 {
        x: div0(2 * hw_fd * u.x, SCALE as int) as i64,
        y: div0(2 * hw_fd * u.y, SCALE as int) as i64,
        z: div0(2 * hw_fd * u.z, SCALE as int) as i64,
    };
    let vertical = Vec3 {
        x: div0(2 * hh_fd * v.x, SCALE as int) as i64,
        y: div0(2 * hh_fd * v.y, SCALE as int) as i64,
        z: div0(2 * hh_fd * v.z, SCALE as int) as i64,
    };
    Camera {
        origin: lookfrom,
        lower_left_corner,
        horizontal,
        vertical,
        u,
        v,
        w,
        lens_radius: (aperture / 2) as i64,
        time0: t0,
        time1: t1,
    }
}

/// Clamp a field-of-view span into `[0, 8]` world units so the derived
/// image plane stays inside the working bounds.
fn clamp_span(x: i64) -> (r: i64)
    ensures
        r == clamp_span_spec(x as int),
        0 <= r <= 8 * SCALE,
        0 <= x <= 8 * SCALE ==> r == x,
{
    if x < 0 {
        0
    } else if x > 8 * SCALE {
        8 * SCALE
    } else {
        x
    }
}

/// One component of `base - hw*u - hh*v - fd*w`, all at fixed point.
fn corner_component(base: i64, hw_fd: i64, uc: i64, hh_fd: i64, vc: i64, fd: i64, wc: i64) -> (r:
    i64)
    requires
        within(base as int, B26 as int),
        0 <= hw_fd <= 8 * B26,
        0 <= hh_fd <= 8 * B26,
        0 <= fd <= B26,
        within(uc as int, 2 * SCALE as int),
        within(vc as int, 16 * SCALE as int),
        within(wc as int, 2 * SCALE as int),
    ensures
        r == base - div0(hw_fd as int * uc as int, SCALE as int) - div0(
            hh_fd as int * vc as int,
            SCALE as int,
        ) - div0(fd as int * wc as int, SCALE as int),
        within(r as int, 1024 * B26 as int),
{
    proof {
        lemma_span_term(hw_fd as int, uc as int, 16 * B26 as int, 16 * SCALE as int);
        lemma_span_term(hh_fd as int, vc as int, 16 * B26 as int, 16 * SCALE as int);
        lemma_span_term(fd as int, wc as int, 16 * B26 as int, 16 * SCALE as int);
    }
    let t1: i64 = div_i128((hw_fd as i128) * (uc as i128), SCALE as i128) as i64;
    let t2: i64 = div_i128((hh_fd as i128) * (vc as i128), SCALE as i128) as i64;
    let t3: i64 = div_i128((fd as i128) * (wc as i128), SCALE as i128) as i64;
    base - t1 - t2 - t3
}

/// `|a * b / SCALE| <= ab * bb / SCALE` for the span terms.
proof fn lemma_span_term(a: int, b: int, ab: int, bb: int)
    requires
        within(a, ab),
        within(b, bb),
        0 <= ab,
        0 <= bb,
        ab <= 16 * B26 as int,
        bb <= 16 * SCALE as int,
    ensures
        within(div0(a * b, SCALE as int), 256 * B26 as int),
{
    crate::math::lemma_mul_within(a, b, ab, bb);
    crate::math::lemma_mul_le(ab, bb, 16 * B26 as int, 16 * SCALE as int);
    assert((16 * B26 as int) * (16 * SCALE as int) == (256 * B26 as int) * SCALE as int)
        by (nonlinear_arith)
        requires
            B26 as int == 0x400_0000,
            SCALE as int == 65536,
    ;
    crate::math::lemma_div0_within(a * b, SCALE as int, (256 * B26 as int) * SCALE as int);
    vstd::arithmetic::div_mod::lemma_div_by_multiple(256 * B26 as int, SCALE as int);
}

/// Componentwise bound of a rescaled cross product.
proof fn lemma_cross_within(a: Vec3, b: Vec3, ab: int, bb: int, q: int)
    requires
        vec_within(a, ab),
        vec_within(b, bb),
        0 <= ab,
        0 <= bb,
        2 * (ab * bb) == q * SCALE as int,
        0 <= q,
    ensures
        within(div0(a.y as int * b.z as int - a.z as int * b.y as int, SCALE as int), q),
        within(div0(a.z as int * b.x as int - a.x as int * b.z as int, SCALE as int), q),
        within(div0(a.x as int * b.y as int - a.y as int * b.x as int, SCALE as int), q),
{
    crate::math::lemma_mul_within(a.y as int, b.z as int, ab, bb);
    crate::math::lemma_mul_within(a.z as int, b.y as int, ab, bb);
    crate::math::lemma_mul_within(a.z as int, b.x as int, ab, bb);
    crate::math::lemma_mul_within(a.x as int, b.z as int, ab, bb);
    crate::math::lemma_mul_within(a.x as int, b.y as int, ab, bb);
    crate::math::lemma_mul_within(a.y as int, b.x as int, ab, bb);
    crate::math::lemma_div0_within(
        a.y as int * b.z as int - a.z as int * b.y as int,
        SCALE as int,
        q * SCALE as int,
    );
    crate::math::lemma_div0_within(
        a.z as int * b.x as int - a.x as int * b.z as int,
        SCALE as int,
        q * SCALE as int,
    );
    crate::math::lemma_div0_within(
        a.x as int * b.y as int - a.y as int * b.x as int,
        SCALE as int,
        q * SCALE as int,
    );
    vstd::arithmetic::div_mod::lemma_div_by_multiple(q, SCALE as int);
}

/// A lens-plane point inside the open unit disk.
pub open spec fn in_disk(rd: Vec3) -> bool {
    vec_within(rd, SCALE as int) && rd.z == 0 && crate::vec3::sdot(rd, rd) < SCALE as int
        * SCALE as int
}

/// The exact relation between a generated ray and the two draws that made
/// it: the lens sample `rd` offsets the origin in the `u, v` plane, the
/// direction is the normalized image-plane vector, and the time is the
/// shutter interval blended by `u01`.
pub open spec fn ray_from(c: Camera, s: int, t: int, rd: Vec3, u01: int, r: Ray) -> bool {
    let rdx = div0(c.lens_radius * rd.x, SCALE as int);
    let rdy = div0(c.lens_radius * rd.y, SCALE as int);
    let offset = Vec3 {
        x: (div0(c.u.x * rdx, SCALE as int) + div0(c.v.x * rdy, SCALE as int)) as i64,
        y: (div0(c.u.y * rdx, SCALE as int) + div0(c.v.y * rdy, SCALE as int)) as i64,
        z: (div0(c.u.z * rdx, SCALE as int) + div0(c.v.z * rdy, SCALE as int)) as i64,
    };
    let raw = Vec3 {
        x: (c.lower_left_corner.x + div0(s * c.horizontal.x, SCALE as int) + div0(
            t * c.vertical.x,
            SCALE as int,
        ) - c.origin.x - offset.x) as i64,
        y: (c.lower_left_corner.y + div0(s * c.horizontal.y, SCALE as int) + div0(
            t * c.vertical.y,
            SCALE as int,
        ) - c.origin.y - offset.y) as i64,
        z: (c.lower_left_corner.z + div0(s * c.horizontal.z, SCALE as int) + div0(
            t * c.vertical.z,
            SCALE as int,
        ) - c.origin.z - offset.z) as i64,
    };
    &&& in_disk(rd)
    &&& 0 <= u01 < SCALE as int
    &&& r.origin == (Vec3 {
        x: (c.origin.x + offset.x) as i64,
        y: (c.origin.y + offset.y) as i64,
        z: (c.origin.z + offset.z) as i64,
    })
    &&& r.direction == crate::vec3::unit_dir(raw)
    &&& r.time as int == c.time0 + div0(u01 * (c.time1 - c.time0), SCALE as int)
}

impl Camera {
    /// Derive the orthonormal basis and image-plane corner and spans from
    /// the viewing configuration. The field-of-view spans are saturated at
    /// the working bound, so every derived field stays well formed.
    pub fn new(
        lookfrom: Vec3,
        lookat: Vec3,
        vup: Vec3,
        vfov: i64,
        aspect: i64,
        aperture: i64,
        focus_dist: i64,
        t0: i64,
        t1: i64,
    ) -> (cam: Camera)
        requires
            vec_within(lookfrom, B26 as int),
            vec_within(lookat, B26 as int),
            vec_within(vup, 4 * SCALE as int),
            0 <= vfov <= 180 * SCALE,
            0 < aspect <= 8 * SCALE,
            0 <= aperture <= 2 * SCALE,
            0 <= focus_dist <= B26,
            within(t0 as int, B38 as int),
            within(t1 as int, B38 as int),
            t0 <= t1,
        ensures
            camera_wf(cam),
            cam == camera_derive(
                lookfrom,
                lookat,
                vup,
                vfov as int,
                aspect as int,
                aperture as int,
                focus_dist as int,
                t0,
                t1,
            ),
            cam.origin == lookfrom,
            cam.time0 == t0,
            cam.time1 == t1,
    {
        let lens_radius: i64 = aperture / 2;
        proof {
            crate::math::lemma_mul_le(vfov as int, PI_FP as int, 180 * SCALE as int, PI_FP as int);
            crate::math::lemma_div0_within(
                vfov as int * PI_FP as int,
                360 * SCALE as int,
                (180 * SCALE as int) * PI_FP as int,
            );
        }
        // half the field of view, in fixed-point radians
        let half_theta: i64 = div_i128(
            (vfov as i128) * (PI_FP as i128),
            360 * (SCALE as i128),
        ) as i64;
        let half_height: i64 = clamp_span(tan_fp(half_theta));
        let half_width: i64 = clamp_span(fp_mul(aspect, half_height));
        let origin = lookfrom;
        let diff = lookfrom.sub(lookat);
        let w = diff.unit_or_default();
        proof {
            assert(2 * ((4 * SCALE as int) * (2 * SCALE as int)) == (16 * SCALE as int)
                * SCALE as int && 2 * ((2 * SCALE as int) * (2 * SCALE as int)) == (8
                * SCALE as int) * SCALE as int) by (nonlinear_arith)
                requires
                    SCALE as int == 65536,
            ;
            lemma_cross_within(
                vup,
                w,
                4 * SCALE as int,
                2 * SCALE as int,
                16 * SCALE as int,
            );
        }
        let cu = vup.cross(&w);
        let u = cu.unit_or_default();
        proof {
            lemma_cross_within(w, u, 2 * SCALE as int, 2 * SCALE as int, 8 * SCALE as int);
        }
        let v = w.cross(&u);
        proof {
            crate::math::lemma_mul_le(half_width as int, focus_dist as int, 8 * SCALE as int, B26 as int);
            crate::math::lemma_mul_le(half_height as int, focus_dist as int, 8 * SCALE as int, B26 as int);
            assert((8 * SCALE as int) * (B26 as int) == (8 * B26 as int) * SCALE as int)
                by (nonlinear_arith)
                requires
                    SCALE as int == 65536,
                    B26 as int == 0x400_0000,
            ;
            crate::math::lemma_div0_within(
                half_width as int * focus_dist as int,
                SCALE as int,
                (8 * B26 as int) * SCALE as int,
            );
            crate::math::lemma_div0_within(
                half_height as int * focus_dist as int,
                SCALE as int,
                (8 * B26 as int) * SCALE as int,
            );
            vstd::arithmetic::div_mod::lemma_div_by_multiple(8 * B26 as int, SCALE as int);
            vstd::arithmetic::div_mod::lemma_div_pos_is_pos(
                half_width as int * focus_dist as int,
                SCALE as int,
            );
            vstd::arithmetic::div_mod::lemma_div_pos_is_pos(
                half_height as int * focus_dist as int,
                SCALE as int,
            );
            assert(half_width as int * focus_dist as int >= 0 && half_height as int
                * focus_dist as int >= 0) by (nonlinear_arith)
                requires
                    half_width >= 0,
                    half_height >= 0,
                    focus_dist >= 0,
            ;
        }
        let hw_fd: i64 = div_i128(
            (half_width as i128) * (focus_dist as i128),
            SCALE as i128,
        ) as i64;
        let hh_fd: i64 = div_i128(
            (half_height as i128) * (focus_dist as i128),
            SCALE as i128,
        ) as i64;
        let lower_left_corner = Vec3::new(
            corner_component(origin.x, hw_fd, u.x, hh_fd, v.x, focus_dist, w.x),
            corner_component(origin.y, hw_fd, u.y, hh_fd, v.y, focus_dist, w.y),
            corner_component(origin.z, hw_fd, u.z, hh_fd, v.z, focus_dist, w.z),
        );
        let horizontal = span_vec(hw_fd, &u);
        let vertical = span_vec(hh_fd, &v);
        Camera {
            origin,
            lower_left_corner,
            horizontal,
            vertical,
            u,
            v,
            w,
            lens_radius,
            time0: t0,
            time1: t1,
        }
    }

    /// A ray through image coordinates `(s, t)`, jittered across the lens
    /// disk and stamped with a shutter time drawn uniformly from the
    /// camera's interval. The direction is normalized, which rescales only
    /// the ray parameter, never the ray's geometry.
    pub fn get_ray(&self, s: i64, t: i64) -> (r: Ray)
        requires
            camera_wf(*self),
            0 <= s <= SCALE,
            0 <= t <= SCALE,
        ensures
            vec_within(r.origin, B33 as int),
            vec_within(r.direction, B26 as int),
            self.time0 <= r.time <= self.time1,
            exists|rd: Vec3, u01: int| #[trigger] ray_from(*self, s as int, t as int, rd, u01, r),
    {
        let rd = random_in_unit_disk();
        let ghost grd = rd;
        proof {
            crate::math::lemma_fp_bound(
                self.lens_radius as int,
                rd.x as int,
                SCALE as int,
                SCALE as int,
                SCALE as int,
            );
            crate::math::lemma_fp_bound(
                self.lens_radius as int,
                rd.y as int,
                SCALE as int,
                SCALE as int,
                SCALE as int,
            );
        }
        let rdx: i64 = fp_mul(self.lens_radius, rd.x);
        let rdy: i64 = fp_mul(self.lens_radius, rd.y);
        proof {
            lemma_offset_terms(*self, rdx as int, rdy as int);
        }
        let offset = Vec3::new(
            fp_mul(self.u.x, rdx) + fp_mul(self.v.x, rdy),
            fp_mul(self.u.y, rdx) + fp_mul(self.v.y, rdy),
            fp_mul(self.u.z, rdx) + fp_mul(self.v.z, rdy),
        );
        let origin = self.origin.add(offset);
        proof {
            lemma_image_terms(*self, s as int, t as int);
        }
        let dir = Vec3::new(
            self.lower_left_corner.x + fp_mul(s, self.horizontal.x) + fp_mul(t, self.vertical.x)
                - self.origin.x - offset.x,
            self.lower_left_corner.y + fp_mul(s, self.horizontal.y) + fp_mul(t, self.vertical.y)
                - self.origin.y - offset.y,
            self.lower_left_corner.z + fp_mul(s, self.horizontal.z) + fp_mul(t, self.vertical.z)
                - self.origin.z - offset.z,
        );
        let direction = dir.unit_or_default();
        let u01: i64 = random_unit();
        let span: i64 = self.time1 - self.time0;
        proof {
            crate::math::lemma_mul_le(u01 as int, span as int, SCALE as int, 2 * B38 as int);
            crate::math::lemma_div0_within(
                u01 as int * span as int,
                SCALE as int,
                (SCALE as int) * (2 * B38 as int),
            );
            assert(u01 as int * span as int >= 0) by (nonlinear_arith)
                requires
                    u01 >= 0,
                    span >= 0,
            ;
            vstd::arithmetic::div_mod::lemma_div_pos_is_pos(
                u01 as int * span as int,
                SCALE as int,
            );
            if span == 0 {
                assert(u01 as int * span as int == 0) by (nonlinear_arith)
                    requires
                        span as int == 0,
                ;
            }
            if span > 0 {
                assert(u01 as int * span as int <= SCALE as int * span as int)
                    by (nonlinear_arith)
                    requires
                        0 <= u01 <= SCALE,
                        span >= 0,
                ;
                vstd::arithmetic::div_mod::lemma_div_is_ordered(
                    u01 as int * span as int,
                    SCALE as int * span as int,
                    SCALE as int,
                );
                vstd::arithmetic::div_mod::lemma_div_by_multiple(span as int, SCALE as int);
                assert(SCALE as int * span as int == span as int * SCALE as int)
                    by (nonlinear_arith);
            }
        }
        let dt: i64 = div_i128((u01 as i128) * (span as i128), SCALE as i128) as i64;
        let time: i64 = self.time0 + dt;
        let out = Ray::new(origin, direction, time);
        proof {
            assert(ray_from(*self, s as int, t as int, grd, u01 as int, out));
        }
        out
    }
}

/// `2 * span * axis / SCALE`, the image-plane span along one basis vector.
fn span_vec(span_fd: i64, axis: &Vec3) -> (r: Vec3)
    requires
        0 <= span_fd <= 8 * B26,
        vec_within(*axis, 16 * SCALE as int),
    ensures
        r.x == div0(2 * span_fd as int * axis.x as int, SCALE as int),
        r.y == div0(2 * span_fd as int * axis.y as int, SCALE as int),
        r.z == div0(2 * span_fd as int * axis.z as int, SCALE as int),
        vec_within(r, 1024 * B26 as int),
{
    proof {
        lemma_span_term(2 * span_fd as int, axis.x as int, 16 * B26 as int, 16 * SCALE as int);
        lemma_span_term(2 * span_fd as int, axis.y as int, 16 * B26 as int, 16 * SCALE as int);
        lemma_span_term(2 * span_fd as int, axis.z as int, 16 * B26 as int, 16 * SCALE as int);
    }
    Vec3::new(
        div_i128((2 * (span_fd as i128)) * (axis.x as i128), SCALE as i128) as i64,
        div_i128((2 * (span_fd as i128)) * (axis.y as i128), SCALE as i128) as i64,
        div_i128((2 * (span_fd as i128)) * (axis.z as i128), SCALE as i128) as i64,
    )
}

/// The lens offset terms stay within a few world units.
proof fn lemma_offset_terms(c: Camera, rdx: int, rdy: int)
    requires
        camera_wf(c),
        within(rdx, SCALE as int),
        within(rdy, SCALE as int),
    ensures
        within(div0(c.u.x as int * rdx, SCALE as int), 2 * SCALE as int),
        within(div0(c.u.y as int * rdx, SCALE as int), 2 * SCALE as int),
        within(div0(c.u.z as int * rdx, SCALE as int), 2 * SCALE as int),
        within(div0(c.v.x as int * rdy, SCALE as int), 16 * SCALE as int),
        within(div0(c.v.y as int * rdy, SCALE as int), 16 * SCALE as int),
        within(div0(c.v.z as int * rdy, SCALE as int), 16 * SCALE as int),
{
    assert((2 * SCALE as int) * (SCALE as int) == (2 * SCALE as int) * SCALE as int);
    crate::math::lemma_fp_bound(c.u.x as int, rdx, 2 * SCALE as int, SCALE as int, 2 * SCALE as int);
    crate::math::lemma_fp_bound(c.u.y as int, rdx, 2 * SCALE as int, SCALE as int, 2 * SCALE as int);
    crate::math::lemma_fp_bound(c.u.z as int, rdx, 2 * SCALE as int, SCALE as int, 2 * SCALE as int);
    crate::math::lemma_fp_bound(c.v.x as int, rdy, 16 * SCALE as int, SCALE as int, 16 * SCALE as int);
    crate::math::lemma_fp_bound(c.v.y as int, rdy, 16 * SCALE as int, SCALE as int, 16 * SCALE as int);
    crate::math::lemma_fp_bound(c.v.z as int, rdy, 16 * SCALE as int, SCALE as int, 16 * SCALE as int);
}

/// The image-plane terms of the raw direction stay within the working
/// bounds.
proof fn lemma_image_terms(c: Camera, s: int, t: int)
    requires
        camera_wf(c),
        0 <= s <= SCALE as int,
        0 <= t <= SCALE as int,
    ensures
        within(div0(s * c.horizontal.x as int, SCALE as int), 1024 * B26 as int),
        within(div0(s * c.horizontal.y as int, SCALE as int), 1024 * B26 as int),
        within(div0(s * c.horizontal.z as int, SCALE as int), 1024 * B26 as int),
        within(div0(t * c.vertical.x as int, SCALE as int), 1024 * B26 as int),
        within(div0(t * c.vertical.y as int, SCALE as int), 1024 * B26 as int),
        within(div0(t * c.vertical.z as int, SCALE as int), 1024 * B26 as int),
{
    assert(SCALE as int * (1024 * B26 as int) == (1024 * B26 as int) * SCALE as int)
        by (nonlinear_arith);
    crate::math::lemma_fp_bound(s, c.horizontal.x as int, SCALE as int, 1024 * B26 as int, 1024 * B26 as int);
    crate::math::lemma_fp_bound(s, c.horizontal.y as int, SCALE as int, 1024 * B26 as int, 1024 * B26 as int);
    crate::math::lemma_fp_bound(s, c.horizontal.z as int, SCALE as int, 1024 * B26 as int, 1024 * B26 as int);
    crate::math::lemma_fp_bound(t, c.vertical.x as int, SCALE as int, 1024 * B26 as int, 1024 * B26 as int);
    crate::math::lemma_fp_bound(t, c.vertical.y as int, SCALE as int, 1024 * B26 as int, 1024 * B26 as int);
    crate::math::lemma_fp_bound(t, c.vertical.z as int, SCALE as int, 1024 * B26 as int, 1024 * B26 as int);
}

/// A random point inside the unit disk on the lens plane, with a bounded
/// number of rejection draws and a fixed interior fallback.
pub fn random_in_unit_disk() -> (r: Vec3)
    ensures
        in_disk(r),
{
    let mut tries: u64 = 0;
    while tries < 64
        invariant
            tries <= 64,
        decreases 64 - tries,
    {
        let p = Vec3::new(
            crate::rng::random_symmetric(),
            crate::rng::random_symmetric(),
            0,
        );
        let sq = p.squared_length();
        if sq < 4294967296i128 {
            proof {
                assert(SCALE as int * SCALE as int == 4294967296) by (nonlinear_arith)
                    requires
                        SCALE as int == 65536,
                ;
            }
            return p;
        }
        tries = tries + 1;
    }
    proof {
        assert((SCALE as int / 2) * (SCALE as int / 2) < SCALE as int * SCALE as int)
            by (nonlinear_arith)
            requires
                SCALE as int == 65536,
        ;
    }
    Vec3::new(SCALE / 2, 0, 0)
}

/// The viewing setup for the scene of many random spheres.
pub fn camera_for_random_spheres(nx: u32, ny: u32) -> (cam: Camera)
    requires
        1 <= ny <= 4096,
        1 <= nx <= 8 * ny,
    ensures
        camera_wf(cam),
{
    let lookfrom = Vec3::new(10 * SCALE, (17 * SCALE) / 10, 3 * SCALE);
    let lookat = Vec3::new(0, (8 * SCALE) / 10, 0);
    let vup = Vec3::new(0, SCALE, 0);
    let aspect = aspect_of(nx, ny);
    let dist = lookfrom.sub(lookat).length();
    let focus = if dist > B26 {
        B26
    } else {
        dist
    };
    Camera::new(lookfrom, lookat, vup, 30 * SCALE, aspect, (5 * SCALE) / 100, focus, 0, SCALE)
}

/// The viewing setup for the two-sphere scene.
pub fn camera_for_two_spheres(nx: u32, ny: u32) -> (cam: Camera)
    requires
        1 <= ny <= 4096,
        1 <= nx <= 8 * ny,
    ensures
        camera_wf(cam),
{
    let lookfrom = Vec3::new(20 * SCALE, 5 * SCALE, 10 * SCALE);
    let lookat = Vec3::new(0, 2 * SCALE, 0);
    let vup = Vec3::new(0, SCALE, 0);
    let aspect = aspect_of(nx, ny);
    Camera::new(lookfrom, lookat, vup, 20 * SCALE, aspect, 0, 10 * SCALE, 0, 0)
}

/// The viewing setup for the walled-box scene.
pub fn camera_for_cornell_box(nx: u32, ny: u32) -> (cam: Camera)
    requires
        1 <= ny <= 4096,
        1 <= nx <= 8 * ny,
    ensures
        camera_wf(cam),
{
    let lookfrom = Vec3::new(278 * SCALE, 278 * SCALE, -800 * SCALE);
    let lookat = Vec3::new(278 * SCALE, 278 * SCALE, 0);
    let vup = Vec3::new(0, SCALE, 0);
    let aspect = aspect_of(nx, ny);
    Camera::new(lookfrom, lookat, vup, 40 * SCALE, aspect, 0, 10 * SCALE, 0, SCALE)
}

/// The image aspect ratio at fixed point, bounded by the size limits.
fn aspect_of(nx: u32, ny: u32) -> (r: i64)
    requires
        1 <= ny <= 4096,
        1 <= nx <= 8 * ny,
    ensures
        0 < r <= 8 * SCALE,
{
    proof {
        crate::math::lemma_mul_le(nx as int, SCALE as int, 8 * ny as int, SCALE as int);
        assert((8 * ny as int) * SCALE as int == (8 * SCALE as int) * ny as int)
            by (nonlinear_arith);
        crate::math::lemma_div0_within(
            nx as int * SCALE as int,
            ny as int,
            (8 * SCALE as int) * ny as int,
        );
        vstd::arithmetic::div_mod::lemma_div_by_multiple(8 * SCALE as int, ny as int);
        assert(nx as int * SCALE as int >= 1 * ny as int) by (nonlinear_arith)
            requires
                nx >= 1,
                ny as int <= 4096,
                SCALE as int == 65536,
                nx as int * SCALE as int >= SCALE as int,
        ;
        vstd::arithmetic::div_mod::lemma_div_multiples_vanish_fancy(1, 0, ny as int);
    }
    let a: i64 = div_i128((nx as i128) * (SCALE as i128), ny as i128) as i64;
    if a < 1 {
        1
    } else if a > 8 * SCALE {
        8 * SCALE
    } else {
        a
    }
}

} // verus!
