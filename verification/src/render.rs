//! The frame sampler: for one pixel, draw jittered samples, trace each
//! through the camera and the integrator, average, and gamma-correct; plus
//! the exact conversions an image writer needs.

use vstd::prelude::*;

use crate::camera::{camera_wf, Camera};
use crate::color::color;
use crate::hitable::{hitable_wf, Hitable};
use crate::material::sqrt_fp_spec;
use crate::math::{div_i128, within, B30, SCALE};
use crate::ray::Ray;
use crate::rng::random_unit;
use crate::vec3::{vec_within, Vec3};

verus! {

/// A negative channel clamps to zero before gamma correction.
pub open spec fn clamp0(x: int) -> int {
    if x < 0 {
        0
    } else {
        x
    }
}

/// Componentwise square-root gamma correction (display gamma of two),
/// exact over the fixed-point square root.
pub fn gamma_correct(c: Vec3) -> (r: Vec3)
    requires
        vec_within(c, B30 as int),
    ensures
        r.x == sqrt_fp_spec(clamp0(c.x as int)),
        r.y == sqrt_fp_spec(clamp0(c.y as int)),
        r.z == sqrt_fp_spec(clamp0(c.z as int)),
        vec_within(r, B30 as int),
{
    let rx = gamma1(c.x);
    let ry = gamma1(c.y);
    let rz = gamma1(c.z);
    Vec3::new(rx, ry, rz)
}

fn gamma1(x: i64) -> (r: i64)
    requires
        within(x as int, B30 as int),
    ensures
        r == sqrt_fp_spec(clamp0(x as int)),
        0 <= r <= B30,
{
    let xc: i64 = if x < 0 {
        0
    } else {
        x
    };
    let r = crate::material::sqrt_fp(xc);
    proof {
        crate::math::lemma_mul_le(xc as int, SCALE as int, B30 as int, SCALE as int);
        assert(((B30 as int) * (SCALE as int)) < (B30 as int) * (B30 as int)) by (nonlinear_arith)
            requires
                B30 as int == 0x4000_0000,
                SCALE as int == 65536,
        ;
        crate::math::lemma_sqrt_below((xc as int * SCALE as int) as nat, B30 as nat);
    }
    r
}

/// A gamma-corrected channel scaled to the byte range, mirroring a
/// `255.99` scale with clamping.
pub open spec fn byte_of(c: int) -> int {
    let cc = if c < 0 {
        0
    } else if c > SCALE as int {
        SCALE as int
    } else {
        c
    };
    cc * 25599 / (100 * SCALE as int)
}

pub fn to_byte(c: i64) -> (r: u8)
    requires
        within(c as int, B30 as int),
    ensures
        r == byte_of(c as int),
        r <= 255,
{
    let cc: i64 = if c < 0 {
        0
    } else if c > SCALE {
        SCALE
    } else {
        c
    };
    proof {
        crate::math::lemma_mul_le(cc as int, 25599, SCALE as int, 25599);
        assert(SCALE as int * 25599 == 255 * (100 * SCALE as int) + 99 * SCALE as int
            && ((99 * (SCALE as int)) < 100 * (SCALE as int))) by (nonlinear_arith)
            requires
                SCALE as int == 65536,
        ;
        vstd::arithmetic::div_mod::lemma_div_is_ordered(
            cc as int * 25599,
            SCALE as int * 25599,
            100 * SCALE as int,
        );
        lemma_byte_top();
        vstd::arithmetic::div_mod::lemma_div_pos_is_pos(cc as int * 25599, 100 * SCALE as int);
        assert(cc as int * 25599 >= 0) by (nonlinear_arith)
            requires
                cc >= 0,
        ;
    }
    ((cc as u64) * 25599 / (100 * (SCALE as u64))) as u8
}

/// The top channel value maps to 255.
proof fn lemma_byte_top()
    ensures
        (SCALE as int * 25599) / (100 * SCALE as int) == 255,
{
    assert(SCALE as int * 25599 == 255 * (100 * SCALE as int) + 6488064) by (nonlinear_arith)
        requires
            SCALE as int == 65536,
    ;
    vstd::arithmetic::div_mod::lemma_fundamental_div_mod_converse(
        SCALE as int * 25599,
        100 * SCALE as int,
        255,
        6488064,
    );
}

/// One camera sample: jitter coordinates inside the unit square and the
/// camera's two draws producing the ray.
pub open spec fn cam_sample(c: Camera, s: int, t: int, rd: Vec3, u01: int, r: Ray) -> bool {
    &&& 0 <= s <= SCALE as int
    &&& 0 <= t <= SCALE as int
    &&& crate::camera::ray_from(c, s, t, rd, u01, r)
}

/// A ray the camera can produce for some jitter and lens draws.
pub open spec fn camera_ray_ok(c: Camera, r: Ray) -> bool {
    exists|s: int, t: int, rd: Vec3, u01: int| #[trigger] cam_sample(c, s, t, rd, u01, r)
}

/// The sampled radiance values and the rays they came from: each ray one
/// the camera can produce, each value one its radiance query allows.
pub open spec fn pixel_samples(
    world: Hitable,
    c: Camera,
    ns: int,
    cols: Seq<Vec3>,
    rays: Seq<Ray>,
) -> bool {
    &&& cols.len() == ns
    &&& rays.len() == ns
    &&& forall|k: int|
        0 <= k < ns ==> camera_ray_ok(c, #[trigger] rays[k]) && crate::color::color_ok(
            world,
            rays[k],
            cols[k],
        )
}

/// Componentwise sum of the first `k` sampled colors.
pub open spec fn sum3(cols: Seq<Vec3>, k: int) -> (int, int, int)
    decreases k,
{
    if k <= 0 {
        (0, 0, 0)
    } else {
        let (sx, sy, sz) = sum3(cols, k - 1);
        (sx + cols[k - 1].x, sy + cols[k - 1].y, sz + cols[k - 1].z)
    }
}

pub open spec fn sat_b30(x: int) -> int {
    if x > B30 as int {
        B30 as int
    } else if x < -B30 as int {
        -B30 as int
    } else {
        x
    }
}

/// The pixel value the sampler produces from its sample values: the
/// clamped per-channel average, gamma-corrected.
pub open spec fn pixel_value(cols: Seq<Vec3>, ns: int) -> Vec3 {
    let (sx, sy, sz) = sum3(cols, cols.len() as int);
    Vec3 {
        x: sqrt_fp_spec(clamp0(sat_b30(crate::math::div0(sx, ns)))) as i64,
        y: sqrt_fp_spec(clamp0(sat_b30(crate::math::div0(sy, ns)))) as i64,
        z: sqrt_fp_spec(clamp0(sat_b30(crate::math::div0(sz, ns)))) as i64,
    }
}

/// Average `ns` jittered radiance samples for pixel `(i, j)` and apply the
/// display gamma; every channel of the result is a non-negative
/// fixed-point value, and the whole is the gamma-corrected average of
/// sample values the camera and integrator allow.
pub fn pixel_color(
    world: &Hitable,
    cam: &Camera,
    i: u32,
    j: u32,
    nx: u32,
    ny: u32,
    ns: u32,
) -> (c: Vec3)
    requires
        hitable_wf(*world),
        camera_wf(*cam),
        1 <= nx <= 4096,
        1 <= ny <= 4096,
        i < nx,
        j < ny,
        1 <= ns <= 100000,
    ensures
        0 <= c.x <= B30,
        0 <= c.y <= B30,
        0 <= c.z <= B30,
        exists|cols: Seq<Vec3>, rays: Seq<Ray>|
            (#[trigger] pixel_samples(*world, *cam, ns as int, cols, rays)) && c == pixel_value(
                cols,
                ns as int,
            ),
{
    let mut sx: i64 = 0;
    let mut sy: i64 = 0;
    let mut sz: i64 = 0;
    let ghost mut gcols: Seq<Vec3> = Seq::empty();
    let ghost mut grays: Seq<Ray> = Seq::empty();
    let mut k: u32 = 0;
    while k < ns
        invariant
            hitable_wf(*world),
            camera_wf(*cam),
            1 <= nx <= 4096,
            1 <= ny <= 4096,
            i < nx,
            j < ny,
            1 <= ns <= 100000,
            k <= ns,
            within(sx as int, k as int * B30 as int),
            within(sy as int, k as int * B30 as int),
            within(sz as int, k as int * B30 as int),
            gcols.len() == k as int,
            grays.len() == k as int,
            (sx as int, sy as int, sz as int) == sum3(gcols, k as int),
            forall|m: int|
                0 <= m < k as int ==> camera_ray_ok(*cam, #[trigger] grays[m])
                    && crate::color::color_ok(*world, grays[m], gcols[m]),
        decreases ns - k,
    {
        let u = jitter(i, nx);
        let v = jitter(j, ny);
        let ray = cam.get_ray(u, v);
        let col = color(&ray, world, 0);
        proof {
            lemma_sum_step(k as int, sx as int, col.x as int);
            lemma_sum_step(k as int, sy as int, col.y as int);
            lemma_sum_step(k as int, sz as int, col.z as int);
            let (crd, cu01) = choose|rd: Vec3, u01: int|
                crate::camera::ray_from(*cam, u as int, v as int, rd, u01, ray);
            assert(cam_sample(*cam, u as int, v as int, crd, cu01, ray));
            assert(camera_ray_ok(*cam, ray));
            lemma_sum3_push(gcols, col, k as int);
            gcols = gcols.push(col);
            grays = grays.push(ray);
            assert(gcols[k as int] == col);
        }
        sx = sx + col.x;
        sy = sy + col.y;
        sz = sz + col.z;
        k = k + 1;
    }
    proof {
        assert(within(sx as int, 100000 * B30 as int) && within(sy as int, 100000 * B30 as int)
            && within(sz as int, 100000 * B30 as int)) by (nonlinear_arith)
            requires
                within(sx as int, ns as int * B30 as int),
                within(sy as int, ns as int * B30 as int),
                within(sz as int, ns as int * B30 as int),
                1 <= ns as int <= 100000,
                B30 as int > 0,
        ;
        crate::math::lemma_div0_within(sx as int, ns as int, 100000 * B30 as int);
        crate::math::lemma_div0_within(sy as int, ns as int, 100000 * B30 as int);
        crate::math::lemma_div0_within(sz as int, ns as int, 100000 * B30 as int);
    }
    let ax: i64 = sat_avg(div_i128(sx as i128, ns as i128) as i64);
    let ay: i64 = sat_avg(div_i128(sy as i128, ns as i128) as i64);
    let az: i64 = sat_avg(div_i128(sz as i128, ns as i128) as i64);
    let out = gamma_correct(Vec3::new(ax, ay, az));
    proof {
        assert(pixel_samples(*world, *cam, ns as int, gcols, grays) && out == pixel_value(
            gcols,
            ns as int,
        ));
    }
    out
}

/// The prefix sum ignores entries past the prefix.
proof fn lemma_sum3_push(cols: Seq<Vec3>, col: Vec3, k: int)
    requires
        0 <= k <= cols.len(),
    ensures
        sum3(cols.push(col), k) == sum3(cols, k),
    decreases k,
{
    if k > 0 {
        lemma_sum3_push(cols, col, k - 1);
    }
}

/// The accumulator stays within the per-sample budget.
proof fn lemma_sum_step(k: int, s: int, x: int)
    requires
        within(s, k * B30 as int),
        within(x, B30 as int),
        0 <= k,
    ensures
        within(s + x, (k + 1) * B30 as int),
{
    assert((k + 1) * B30 as int == k * B30 as int + B30 as int) by (nonlinear_arith);
}

fn sat_avg(x: i64) -> (r: i64)
    ensures
        r == sat_b30(x as int),
        within(r as int, B30 as int),
        within(x as int, B30 as int) ==> r == x,
{
    if x > B30 {
        B30
    } else if x < -B30 {
        -B30
    } else {
        x
    }
}

/// A jittered normalized image coordinate: `(i + U) / n` with `U` uniform
/// in `[0, 1)`, landing in `[0, 1)`.
fn jitter(i: u32, n: u32) -> (r: i64)
    requires
        1 <= n <= 4096,
        i < n,
    ensures
        0 <= r <= SCALE,
{
    let u01: i64 = random_unit();
    let num: i64 = (i as i64) * SCALE + u01;
    proof {
        assert(0 <= num as int && num as int <= n as int * SCALE as int) by (nonlinear_arith)
            requires
                0 <= i as int,
                (i as int) < n as int,
                0 <= u01 < SCALE,
                num as int == i as int * SCALE as int + u01 as int,
                SCALE as int == 65536,
        ;
        crate::math::lemma_div0_within(num as int, n as int, n as int * SCALE as int);
        vstd::arithmetic::div_mod::lemma_div_is_ordered(
            num as int,
            n as int * SCALE as int,
            n as int,
        );
        vstd::arithmetic::div_mod::lemma_div_by_multiple(SCALE as int, n as int);
        assert(n as int * SCALE as int == SCALE as int * n as int) by (nonlinear_arith);
        vstd::arithmetic::div_mod::lemma_div_pos_is_pos(num as int, n as int);
    }
    div_i128(num as i128, n as i128) as i64
}

} // verus!
