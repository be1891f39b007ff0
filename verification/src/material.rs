//! Surface response: diffuse, specular with fuzz, refractive, emissive and
//! isotropic scattering. Every decision that consumes a random draw is a
//! verified function of that draw, so the accept/reject rules are exact.

use std::sync::Arc;
use vstd::prelude::*;

use crate::hitable::HitRecord;
use crate::math::{div0, sqrt_floor, within, B26, B30, B57, SCALE};
use crate::ray::Ray;
use crate::rng::{rand_below, random_symmetric};
use crate::texture::{tex_value_ok, texture_wf, Texture};
use crate::vec3::{sdot, vec_within, Vec3};

verus! {

/// Relies on std's `Arc::clone`: the returned handle refers to the same
/// shared value.
#[verifier::external_body]
pub fn arc_dup(m: &Arc<Material>) -> (r: Arc<Material>)
    ensures
        r == *m,
{
    Arc::clone(m)
}

pub struct ScatterRecord {
    pub attenuation: Vec3,
    pub scattered: Ray,
}

pub struct Lambertian {
    pub albedo: Box<Texture>,
}

pub struct Metal {
    pub albedo: Vec3,
    pub fuzz: i64,
}

pub struct Dielectric {
    pub refract_idx: i64,
}

pub struct DiffuseLight {
    pub emit: Box<Texture>,
}

pub struct Isotropic {
    pub albedo: Box<Texture>,
}

pub enum Material {
    Lambertian(Lambertian),
    Metal(Metal),
    Dielectric(Dielectric),
    DiffuseLight(DiffuseLight),
    Isotropic(Isotropic),
}

pub open spec fn material_wf(m: Material) -> bool {
    match m {
        Material::Lambertian(l) => texture_wf(*l.albedo),
        Material::Metal(mt) => vec_within(mt.albedo, B30 as int) && 0 <= mt.fuzz,
        Material::Dielectric(d) => 16384 <= d.refract_idx <= 4 * SCALE,
        Material::DiffuseLight(l) => texture_wf(*l.emit),
        Material::Isotropic(i) => texture_wf(*i.albedo),
    }
}

impl Lambertian {
    pub fn new(x: i64, y: i64, z: i64) -> (r: Lambertian)
        requires
            within(x as int, B30 as int),
            within(y as int, B30 as int),
            within(z as int, B30 as int),
        ensures
            *r.albedo == Texture::Constant(
                crate::texture::ConstantTexture { color: Vec3 { x, y, z } },
            ),
            texture_wf(*r.albedo),
    {
        Lambertian {
            albedo: Box::new(Texture::Constant(crate::texture::ConstantTexture::new(x, y, z))),
        }
    }

    pub fn new_with_texture(albedo: Texture) -> (r: Lambertian)
        ensures
            *r.albedo == albedo,
    {
        Lambertian { albedo: Box::new(albedo) }
    }
}

impl Metal {
    pub fn new(v: (i64, i64, i64), fuzz: i64) -> (r: Metal)
        requires
            within(v.0 as int, B30 as int),
            within(v.1 as int, B30 as int),
            within(v.2 as int, B30 as int),
            0 <= fuzz,
        ensures
            r.albedo == (Vec3 { x: v.0, y: v.1, z: v.2 }),
            r.fuzz == fuzz,
            material_wf(Material::Metal(r)),
    {
        Metal { albedo: Vec3::new(v.0, v.1, v.2), fuzz }
    }
}

impl Dielectric {
    pub fn new(refract_idx: i64) -> (r: Dielectric)
        requires
            16384 <= refract_idx <= 4 * SCALE,
        ensures
            r.refract_idx == refract_idx,
    {
        Dielectric { refract_idx }
    }
}

impl DiffuseLight {
    pub fn new(x: i64, y: i64, z: i64) -> (r: DiffuseLight)
        requires
            within(x as int, B30 as int),
            within(y as int, B30 as int),
            within(z as int, B30 as int),
        ensures
            *r.emit == Texture::Constant(
                crate::texture::ConstantTexture { color: Vec3 { x, y, z } },
            ),
            texture_wf(*r.emit),
    {
        DiffuseLight {
            emit: Box::new(Texture::Constant(crate::texture::ConstantTexture::new(x, y, z))),
        }
    }
}

impl Isotropic {
    pub fn new(albedo: Texture) -> (r: Isotropic)
        ensures
            *r.albedo == albedo,
    {
        Isotropic { albedo: Box::new(albedo) }
    }
}

/// A random point with all components in `[-1, 1)`, rejected until it lies
/// inside the unit sphere; after a bounded number of draws the sampling
/// falls back to a fixed interior point.
pub fn random_in_unit_sphere() -> (r: Vec3)
    ensures
        vec_within(r, SCALE as int),
        sdot(r, r) <= SCALE as int * SCALE as int,
{
    let mut tries: u64 = 0;
    while tries < 64
        invariant
            tries <= 64,
        decreases 64 - tries,
    {
        let p = Vec3::new(random_symmetric(), random_symmetric(), random_symmetric());
        let sq = p.squared_length();
        if sq <= (SCALE as i128) * (SCALE as i128) {
            return p;
        }
        tries = tries + 1;
    }
    proof {
        assert((SCALE as int / 2) * (SCALE as int / 2) * 3 <= SCALE as int * SCALE as int)
            by (nonlinear_arith)
            requires
                SCALE as int == 65536,
        ;
    }
    Vec3::new(SCALE / 2, 0, 0)
}

/// Mirror reflection `v - 2 (v . n) n` over the fixed-point dot product.
pub open spec fn reflect_spec(v: Vec3, n: Vec3) -> Vec3 {
    let d = div0(sdot(v, n), SCALE as int);
    Vec3 {
        x: (v.x - 2 * div0(d * n.x, SCALE as int)) as i64,
        y: (v.y - 2 * div0(d * n.y, SCALE as int)) as i64,
        z: (v.z - 2 * div0(d * n.z, SCALE as int)) as i64,
    }
}

pub fn reflect(v: Vec3, n: Vec3) -> (r: Vec3)
    requires
        vec_within(v, 2 * SCALE as int),
        vec_within(n, 4 * SCALE as int),
    ensures
        r == reflect_spec(v, n),
        vec_within(r, 194 * SCALE as int),
{
    let dot128: i128 = v.dot(&n);
    proof {
        lemma_quasi_dot(v, n);
        crate::math::lemma_div0_within(
            sdot(v, n),
            SCALE as int,
            (24 * SCALE as int) * SCALE as int,
        );
        lemma_div_scale_mult(24 * SCALE as int);
    }
    let d: i64 = crate::math::div_i128(dot128, SCALE as i128) as i64;
    proof {
        crate::math::lemma_mul_within(d as int, n.x as int, 24 * SCALE as int, 4 * SCALE as int);
        crate::math::lemma_mul_within(d as int, n.y as int, 24 * SCALE as int, 4 * SCALE as int);
        crate::math::lemma_mul_within(d as int, n.z as int, 24 * SCALE as int, 4 * SCALE as int);
        assert((24 * SCALE as int) * (4 * SCALE as int) == (96 * SCALE as int) * SCALE as int)
            by (nonlinear_arith)
            requires
                SCALE as int == 65536,
        ;
        crate::math::lemma_div0_within(
            d as int * n.x as int,
            SCALE as int,
            (96 * SCALE as int) * SCALE as int,
        );
        crate::math::lemma_div0_within(
            d as int * n.y as int,
            SCALE as int,
            (96 * SCALE as int) * SCALE as int,
        );
        crate::math::lemma_div0_within(
            d as int * n.z as int,
            SCALE as int,
            (96 * SCALE as int) * SCALE as int,
        );
        lemma_div_scale_mult(96 * SCALE as int);
    }
    let rx: i64 = v.x - 2 * (crate::math::div_i128(
        (d as i128) * (n.x as i128),
        SCALE as i128,
    ) as i64);
    let ry: i64 = v.y - 2 * (crate::math::div_i128(
        (d as i128) * (n.y as i128),
        SCALE as i128,
    ) as i64);
    let rz: i64 = v.z - 2 * (crate::math::div_i128(
        (d as i128) * (n.z as i128),
        SCALE as i128,
    ) as i64);
    Vec3::new(rx, ry, rz)
}

/// Fixed-point square root: `sqrt(x / SCALE) * SCALE`, by the floor square
/// root of `x * SCALE`.
pub open spec fn sqrt_fp_spec(x: int) -> int {
    sqrt_floor((x * SCALE as int) as nat) as int
}

pub fn sqrt_fp(x: i64) -> (r: i64)
    requires
        0 <= x,
    ensures
        r == sqrt_fp_spec(x as int),
        0 <= r,
{
    proof {
        crate::math::lemma_mul_le(x as int, SCALE as int, i64::MAX as int, SCALE as int);
        assert((x as int * SCALE as int) < 0x100_0000_0000int * 0x100_0000_0000)
            by (nonlinear_arith)
            requires
                0 <= x as int <= i64::MAX as int,
                SCALE as int == 65536,
        ;
        crate::math::lemma_sqrt_below(
            (x as int * SCALE as int) as nat,
            0x100_0000_0000 as nat,
        );
    }
    crate::math::isqrt_u128((x as u128) * (SCALE as u128)) as i64
}

/// Snell refraction over the fixed-point arithmetic: the refracted
/// direction when the discriminant is positive, `None` on total internal
/// reflection.
pub open spec fn refract_spec(uv: Vec3, n: Vec3, ni: int) -> Option<Vec3> {
    let dt = div0(sdot(uv, n), SCALE as int);
    let ni2 = div0(ni * ni, SCALE as int);
    let one_dt = SCALE as int - div0(dt * dt, SCALE as int);
    let disc = SCALE as int - div0(ni2 * one_dt, SCALE as int);
    if disc > 0 {
        let sq = sqrt_fp_spec(disc);
        Option::Some(
            Vec3 {
                x: (div0(ni * (uv.x - div0(n.x * dt, SCALE as int)), SCALE as int) - div0(
                    n.x * sq,
                    SCALE as int,
                )) as i64,
                y: (div0(ni * (uv.y - div0(n.y * dt, SCALE as int)), SCALE as int) - div0(
                    n.y * sq,
                    SCALE as int,
                )) as i64,
                z: (div0(ni * (uv.z - div0(n.z * dt, SCALE as int)), SCALE as int) - div0(
                    n.z * sq,
                    SCALE as int,
                )) as i64,
            },
        )
    } else {
        Option::None
    }
}

/// A quasi-unit incoming direction and a quasi-unit normal keep every
/// intermediate of the refraction inside `i64`.
pub fn refract(uv: &Vec3, n: &Vec3, ni: i64) -> (r: Option<Vec3>)
    requires
        vec_within(*uv, 2 * SCALE as int),
        vec_within(*n, 4 * SCALE as int),
        1 <= ni <= 4 * SCALE,
    ensures
        r == refract_spec(*uv, *n, ni as int),
        r matches Option::Some(v) ==> vec_within(v, 800 * SCALE as int),
{
    let s: i128 = SCALE as i128;
    let dotun: i128 = uv.dot(n);
    proof {
        lemma_quasi_dot(*uv, *n);
        crate::math::lemma_div0_within(sdot(*uv, *n), SCALE as int, 24 * (SCALE as int) * (
        SCALE as int));
        lemma_div_scale_mult(24 * SCALE as int);
    }
    let dt: i64 = crate::math::div_i128(dotun, s) as i64;
    proof {
        crate::math::lemma_mul_within(dt as int, dt as int, 24 * SCALE as int, 24 * SCALE as int);
        assert((24 * SCALE as int) * (24 * SCALE as int) == (576 * SCALE as int) * SCALE as int)
            by (nonlinear_arith)
            requires
                SCALE as int == 65536,
        ;
        crate::math::lemma_div0_within(
            dt as int * dt as int,
            SCALE as int,
            (576 * SCALE as int) * SCALE as int,
        );
        lemma_div_scale_mult(576 * SCALE as int);
        crate::math::lemma_mul_within(ni as int, ni as int, 4 * SCALE as int, 4 * SCALE as int);
        assert((4 * SCALE as int) * (4 * SCALE as int) == (16 * SCALE as int) * SCALE as int)
            by (nonlinear_arith)
            requires
                SCALE as int == 65536,
        ;
        crate::math::lemma_div0_within(
            ni as int * ni as int,
            SCALE as int,
            (16 * SCALE as int) * SCALE as int,
        );
        lemma_div_scale_mult(16 * SCALE as int);
    }
    let ni2: i64 = crate::math::div_i128((ni as i128) * (ni as i128), s) as i64;
    let one_dt: i64 = SCALE - crate::math::div_i128((dt as i128) * (dt as i128), s) as i64;
    proof {
        crate::math::lemma_mul_within(
            ni2 as int,
            one_dt as int,
            16 * SCALE as int,
            577 * SCALE as int,
        );
        assert((16 * SCALE as int) * (577 * SCALE as int) == (9232 * SCALE as int) * SCALE as int)
            by (nonlinear_arith)
            requires
                SCALE as int == 65536,
        ;
        crate::math::lemma_div0_within(
            ni2 as int * one_dt as int,
            SCALE as int,
            (9232 * SCALE as int) * SCALE as int,
        );
        lemma_div_scale_mult(9232 * SCALE as int);
    }
    let disc: i64 = SCALE - crate::math::div_i128((ni2 as i128) * (one_dt as i128), s) as i64;
    if disc > 0 {
        let sq: i64 = sqrt_fp(disc);
        proof {
            crate::math::lemma_mul_le(disc as int, SCALE as int, 9233 * SCALE as int, SCALE as int);
            crate::math::lemma_sqrt_below(
                (disc as int * SCALE as int) as nat,
                (97 * SCALE as int) as nat,
            );
            assert((9233 * (SCALE as int) * (SCALE as int)) < (97 * SCALE as int) * (97
                * SCALE as int)) by (nonlinear_arith)
                requires
                    SCALE as int == 65536,
            ;
        }
        let rx = refract_component(uv.x, n.x, dt, ni, sq);
        let ry = refract_component(uv.y, n.y, dt, ni, sq);
        let rz = refract_component(uv.z, n.z, dt, ni, sq);
        Option::Some(Vec3::new(rx, ry, rz))
    } else {
        Option::None
    }
}

/// One component of the refracted direction:
/// `ni (uv_c - n_c dt) / SCALE - n_c sq / SCALE`.
fn refract_component(uvc: i64, nc: i64, dt: i64, ni: i64, sq: i64) -> (r: i64)
    requires
        within(uvc as int, 2 * SCALE as int),
        within(nc as int, 4 * SCALE as int),
        within(dt as int, 24 * SCALE as int),
        1 <= ni <= 4 * SCALE,
        0 <= sq <= 97 * SCALE,
    ensures
        r == div0(ni as int * (uvc - div0(nc as int * dt as int, SCALE as int)), SCALE as int)
            - div0(nc as int * sq as int, SCALE as int),
        within(r as int, 800 * SCALE as int),
{
    let s: i128 = SCALE as i128;
    proof {
        crate::math::lemma_mul_within(nc as int, dt as int, 4 * SCALE as int, 24 * SCALE as int);
        assert((4 * SCALE as int) * (24 * SCALE as int) == (96 * SCALE as int) * SCALE as int)
            by (nonlinear_arith)
            requires
                SCALE as int == 65536,
        ;
        crate::math::lemma_div0_within(
            nc as int * dt as int,
            SCALE as int,
            (96 * SCALE as int) * SCALE as int,
        );
        lemma_div_scale_mult(96 * SCALE as int);
    }
    let w: i64 = uvc - crate::math::div_i128((nc as i128) * (dt as i128), s) as i64;
    proof {
        crate::math::lemma_mul_within(ni as int, w as int, 4 * SCALE as int, 98 * SCALE as int);
        assert((4 * SCALE as int) * (98 * SCALE as int) == (392 * SCALE as int) * SCALE as int
            && (4 * SCALE as int) * (97 * SCALE as int) == (388 * SCALE as int) * SCALE as int)
            by (nonlinear_arith)
            requires
                SCALE as int == 65536,
        ;
        crate::math::lemma_div0_within(
            ni as int * w as int,
            SCALE as int,
            (392 * SCALE as int) * SCALE as int,
        );
        lemma_div_scale_mult(392 * SCALE as int);
        crate::math::lemma_mul_within(nc as int, sq as int, 4 * SCALE as int, 97 * SCALE as int);
        crate::math::lemma_div0_within(
            nc as int * sq as int,
            SCALE as int,
            (388 * SCALE as int) * SCALE as int,
        );
        lemma_div_scale_mult(388 * SCALE as int);
    }
    let t1: i64 = crate::math::div_i128((ni as i128) * (w as i128), s) as i64;
    let t2: i64 = crate::math::div_i128((nc as i128) * (sq as i128), s) as i64;
    t1 - t2
}

/// `|a . b| <= 24 SCALE^2` for a quasi-unit pair.
proof fn lemma_quasi_dot(a: Vec3, b: Vec3)
    requires
        vec_within(a, 2 * SCALE as int),
        vec_within(b, 4 * SCALE as int),
    ensures
        within(sdot(a, b), 24 * (SCALE as int) * (SCALE as int)),
{
    crate::math::lemma_mul_within(a.x as int, b.x as int, 2 * SCALE as int, 4 * SCALE as int);
    crate::math::lemma_mul_within(a.y as int, b.y as int, 2 * SCALE as int, 4 * SCALE as int);
    crate::math::lemma_mul_within(a.z as int, b.z as int, 2 * SCALE as int, 4 * SCALE as int);
    assert((2 * SCALE as int) * (4 * SCALE as int) == 8 * (SCALE as int) * (SCALE as int))
        by (nonlinear_arith);
}

/// `(k SCALE) * SCALE / SCALE == k SCALE`, the step every rescale bound
/// uses.
proof fn lemma_div_scale_mult(k_scale: int)
    requires
        0 <= k_scale,
    ensures
        (k_scale * SCALE as int) / SCALE as int == k_scale,
{
    vstd::arithmetic::div_mod::lemma_div_by_multiple(k_scale, SCALE as int);
}

/// The saturated fixed-point power chain `(1 - cosine)^k`, each step
/// clamped into the working range.
pub open spec fn schlick_pow(e: int, k: int) -> int
    decreases k,
{
    if k <= 0 {
        SCALE as int
    } else {
        let p = div0(schlick_pow(e, k - 1) * e, SCALE as int);
        if p > 0x4000_0000_0000_0000 {
            0x4000_0000_0000_0000
        } else if p < -0x4000_0000_0000_0000 {
            -0x4000_0000_0000_0000
        } else {
            p
        }
    }
}

/// Schlick's reflectance estimate over the fixed-point arithmetic, clamped
/// into `[0, 1]`:
/// `r0 + (1 - r0) (1 - cosine)^5` with `r0 = ((1 - n) / (1 + n))^2`.
pub open spec fn schlick_spec(cosine: int, refract_idx: int) -> int {
    let r0 = div0((SCALE as int - refract_idx) * SCALE as int, SCALE as int + refract_idx);
    let r0sq = div0(r0 * r0, SCALE as int);
    let pw = schlick_pow(SCALE as int - cosine, 5);
    let total = r0sq + div0((SCALE as int - r0sq) * pw, SCALE as int);
    if total > SCALE as int {
        SCALE as int
    } else if total < 0 {
        0
    } else {
        total
    }
}

/// Schlick's reflectance estimate; its value decides the probabilistic
/// reflect-or-refract choice against a uniform draw.
pub fn schlick(cosine: i64, refract_idx: i64) -> (r: i64)
    requires
        within(cosine as int, 100 * SCALE as int),
        1 <= refract_idx <= 4 * SCALE,
    ensures
        r == schlick_spec(cosine as int, refract_idx as int),
        0 <= r <= SCALE,
{
    let s: i128 = SCALE as i128;
    let num: i64 = SCALE - refract_idx;
    let den: i64 = SCALE + refract_idx;
    proof {
        crate::math::lemma_mul_within(num as int, SCALE as int, 4 * SCALE as int, SCALE as int);
        crate::math::lemma_div0_within(
            num as int * SCALE as int,
            den as int,
            (4 * SCALE as int) * SCALE as int,
        );
    }
    let r0: i64 = crate::math::div_i128((num as i128) * s, den as i128) as i64;
    proof {
        crate::math::lemma_mul_within(r0 as int, r0 as int, (4 * SCALE as int) * SCALE as int, (4
            * SCALE as int) * SCALE as int);
        crate::math::lemma_div0_within(
            r0 as int * r0 as int,
            SCALE as int,
            ((4 * SCALE as int) * SCALE as int) * ((4 * SCALE as int) * SCALE as int),
        );
        assert(((4 * SCALE as int) * SCALE as int) * ((4 * SCALE as int) * SCALE as int)
            == 0x10_0000_0000_0000int * SCALE as int) by (nonlinear_arith)
            requires
                SCALE as int == 65536,
        ;
        vstd::arithmetic::div_mod::lemma_div_by_multiple(0x10_0000_0000_0000, SCALE as int);
    }
    let r0sq: i64 = crate::math::div_i128((r0 as i128) * (r0 as i128), s) as i64;
    let e: i64 = SCALE - cosine;
    let mut pw: i64 = SCALE;
    let mut k: u64 = 0;
    while k < 5
        invariant
            within(e as int, 101 * SCALE as int),
            within(pw as int, 0x4000_0000_0000_0000),
            k <= 5,
            pw as int == schlick_pow(e as int, k as int),
        decreases 5 - k,
    {
        proof {
            crate::math::lemma_mul_within(
                pw as int,
                e as int,
                0x4000_0000_0000_0000,
                101 * SCALE as int,
            );
            crate::math::lemma_div0_within(
                pw as int * e as int,
                SCALE as int,
                0x4000_0000_0000_0000 * (101 * SCALE as int),
            );
        }
        proof {
            assert(0x4000_0000_0000_0000int * (101 * SCALE as int) < i128::MAX)
                by (nonlinear_arith)
                requires
                    SCALE as int == 65536,
            ;
        }
        let p128: i128 = (pw as i128) * (e as i128);
        let q: i128 = crate::math::div_i128(p128, SCALE as i128);
        if q > 0x4000_0000_0000_0000i128 {
            pw = 0x4000_0000_0000_0000;
        } else if q < -0x4000_0000_0000_0000i128 {
            pw = -0x4000_0000_0000_0000;
        } else {
            pw = q as i64;
        }
        k = k + 1;
    }
    proof {
        assert(((4 * SCALE as int) * SCALE as int) * ((4 * SCALE as int) * SCALE as int)
            == 0x10_0000_0000_0000int * SCALE as int) by (nonlinear_arith)
            requires
                SCALE as int == 65536,
        ;
        vstd::arithmetic::div_mod::lemma_div_by_multiple(0x10_0000_0000_0000, SCALE as int);
        crate::math::lemma_mul_within(
            SCALE as int - r0sq as int,
            pw as int,
            0x20_0000_0000_0000int,
            0x4000_0000_0000_0000int,
        );
    }
    let tail128: i128 = ((SCALE - r0sq) as i128) * (pw as i128);
    proof {
        crate::math::lemma_div0_within(
            (SCALE as int - r0sq as int) * pw as int,
            SCALE as int,
            0x20_0000_0000_0000int * 0x4000_0000_0000_0000,
        );
    }
    let tail: i128 = crate::math::div_i128(tail128, s);
    let total: i128 = (r0sq as i128) + tail;
    if total > (SCALE as i128) {
        SCALE
    } else if total < 0 {
        0
    } else {
        total as i64
    }
}

/// The outward-facing normal the refraction uses: flipped when the ray
/// leaves the medium.
pub open spec fn diel_outward(r_in: Ray, rec: HitRecord) -> Vec3 {
    if sdot(r_in.direction, rec.normal) > 0 {
        Vec3 { x: (-rec.normal.x) as i64, y: (-rec.normal.y) as i64, z: (-rec.normal.z) as i64 }
    } else {
        rec.normal
    }
}

/// The refraction ratio: the index when entering the denser side is left,
/// its reciprocal otherwise.
pub open spec fn diel_ni(d: Dielectric, r_in: Ray, rec: HitRecord) -> int {
    if sdot(r_in.direction, rec.normal) > 0 {
        d.refract_idx as int
    } else {
        div0(SCALE as int * SCALE as int, d.refract_idx as int)
    }
}

/// The cosine Schlick's approximation is evaluated at: the refraction
/// index times the normal component of the unit direction when exiting,
/// its negation when entering.
pub open spec fn diel_cosine(d: Dielectric, r_in: Ray, rec: HitRecord) -> int {
    let uv = crate::vec3::unit_dir(r_in.direction);
    let dtu = div0(sdot(uv, rec.normal), SCALE as int);
    if sdot(r_in.direction, rec.normal) > 0 {
        div0(d.refract_idx as int * dtu, SCALE as int)
    } else {
        -dtu
    }
}

/// The direction the probabilistic choice picks: refraction when the draw
/// clears the reflectance, reflection otherwise.
pub open spec fn diel_choice(u: int, prob: int, refracted: Vec3, reflected: Vec3) -> Vec3 {
    if u > prob {
        refracted
    } else {
        reflected
    }
}

/// What `Material::emitted` returns: the light's texture value, exactly;
/// zero for every other surface.
pub open spec fn emitted_ok(m: Material, u: int, v: int, p: Vec3, e: Vec3) -> bool {
    match m {
        Material::DiffuseLight(l) => tex_value_ok(*l.emit, u, v, p, e),
        _ => e == (Vec3 { x: 0i64, y: 0i64, z: 0i64 }),
    }
}

/// The per-hit bounds every scatter decision relies on.
pub open spec fn rec_bounds(rec: HitRecord) -> bool {
    &&& 0 <= rec.u <= SCALE
    &&& 0 <= rec.v <= SCALE
    &&& vec_within(rec.p, B57 as int)
    &&& vec_within(rec.normal, 4 * SCALE as int)
}

/// What `Material::scatter` promises, per variant. Diffuse and isotropic
/// surfaces always scatter; lights never do; a metal's record is returned
/// exactly when the fuzzed reflection stays on the normal's side; a
/// dielectric always returns a ray, and falls back to pure reflection
/// whenever the refraction discriminant is not positive.
pub open spec fn scatter_ok(m: Material, r_in: Ray, rec: HitRecord, res: Option<ScatterRecord>) -> bool {
    match m {
        Material::Lambertian(l) => res matches Option::Some(sr) && tex_value_ok(
            *l.albedo,
            rec.u as int,
            rec.v as int,
            rec.p,
            sr.attenuation,
        ) && sr.scattered.origin == rec.p && sr.scattered.time == r_in.time && vec_within(
            sr.scattered.direction,
            5 * SCALE as int,
        ) && (exists|rnd: Vec3|
            (#[trigger] in_sphere(rnd)) && sr.scattered.direction == (Vec3 {
                x: (rec.normal.x + rnd.x) as i64,
                y: (rec.normal.y + rnd.y) as i64,
                z: (rec.normal.z + rnd.z) as i64,
            })),
        Material::Metal(mt) => exists|rnd: Vec3|
            (#[trigger] in_sphere(rnd)) && {
                let cand = metal_candidate(mt, r_in, rec, rnd);
                &&& (res is Some) == (sdot(cand, rec.normal) > 0)
                &&& (res matches Option::Some(sr) ==> sr.scattered.direction == cand
                    && sr.attenuation == mt.albedo && sr.scattered.origin == rec.p
                    && sr.scattered.time == r_in.time && vec_within(
                    sr.scattered.direction,
                    B26 as int,
                ))
            },
        Material::Dielectric(d) => res matches Option::Some(sr) && sr.attenuation == (Vec3 {
            x: SCALE,
            y: SCALE,
            z: SCALE,
        }) && sr.scattered.origin == rec.p && sr.scattered.time == r_in.time && vec_within(
            sr.scattered.direction,
            B26 as int,
        ) && {
            let uv = crate::vec3::unit_dir(r_in.direction);
            let refr = refract_spec(uv, diel_outward(r_in, rec), diel_ni(d, r_in, rec));
            &&& (refr is None ==> sr.scattered.direction == reflect_spec(uv, rec.normal))
            &&& (refr matches Option::Some(rf) ==> exists|u: int|
                0 <= u < SCALE as int && sr.scattered.direction == #[trigger] diel_choice(
                    u,
                    schlick_spec(diel_cosine(d, r_in, rec), d.refract_idx as int),
                    rf,
                    reflect_spec(uv, rec.normal),
                ))
            &&& (sr.scattered.direction == reflect_spec(uv, rec.normal) || (refr matches
                Option::Some(rf) && sr.scattered.direction == rf))
        },
        Material::DiffuseLight(_) => res is None,
        Material::Isotropic(i) => res matches Option::Some(sr) && tex_value_ok(
            *i.albedo,
            rec.u as int,
            rec.v as int,
            rec.p,
            sr.attenuation,
        ) && sr.scattered.origin == rec.p && sr.scattered.time == r_in.time && in_sphere(
            sr.scattered.direction,
        ),
    }
}

/// A point inside the closed unit sphere, as the rejection sampler
/// produces it.
pub open spec fn in_sphere(rnd: Vec3) -> bool {
    vec_within(rnd, SCALE as int) && sdot(rnd, rnd) <= SCALE as int * SCALE as int
}

/// The fuzzed reflection a metal tests: the mirror reflection of the
/// normalized incoming direction, offset by the sample scaled by the
/// clamped fuzz.
pub open spec fn metal_candidate(mt: Metal, r_in: Ray, rec: HitRecord, rnd: Vec3) -> Vec3 {
    let f = if mt.fuzz < SCALE {
        mt.fuzz as int
    } else {
        SCALE as int
    };
    let refl = reflect_spec(crate::vec3::unit_dir(r_in.direction), rec.normal);
    Vec3 {
        x: (refl.x + div0(rnd.x * f, SCALE as int)) as i64,
        y: (refl.y + div0(rnd.y * f, SCALE as int)) as i64,
        z: (refl.z + div0(rnd.z * f, SCALE as int)) as i64,
    }
}

/// Accept or absorb a fuzzed metal reflection: a record comes back exactly
/// when the candidate direction stays on the outer side of the surface.
pub fn metal_decide(albedo: Vec3, candidate: Vec3, p: Vec3, normal: Vec3, time: i64) -> (res:
    Option<ScatterRecord>)
    requires
        vec_within(candidate, B26 as int),
        vec_within(normal, 4 * SCALE as int),
    ensures
        res matches Option::Some(sr) ==> sr.scattered.direction == candidate
            && sr.attenuation == albedo && sr.scattered.origin == p && sr.scattered.time == time,
        (res is Some) == (sdot(candidate, normal) > 0),
{
    let d = candidate.dot(&normal);
    if d > 0 {
        Option::Some(
            ScatterRecord { attenuation: albedo, scattered: Ray::new(p, candidate, time) },
        )
    } else {
        Option::None
    }
}

impl Material {
    /// Surface response at a hit: an attenuated outgoing ray, or `None`
    /// when the surface absorbs the path.
    pub fn scatter(&self, r_in: &Ray, rec: &HitRecord) -> (res: Option<ScatterRecord>)
        requires
            material_wf(*self),
            rec_bounds(*rec),
            vec_within(r_in.direction, B26 as int),
        ensures
            scatter_ok(*self, *r_in, *rec, res),
    {
        match self {
            Material::Lambertian(l) => {
                let rnd = random_in_unit_sphere();
                let ghost grnd = rnd;
                let dir = rec.normal.add(rnd);
                let attenuation = l.albedo.value(rec.u, rec.v, &rec.p);
                proof {
                    assert(in_sphere(grnd) && dir == (Vec3 {
                        x: (rec.normal.x + grnd.x) as i64,
                        y: (rec.normal.y + grnd.y) as i64,
                        z: (rec.normal.z + grnd.z) as i64,
                    }));
                }
                Option::Some(
                    ScatterRecord {
                        attenuation,
                        scattered: Ray::new(rec.p, dir, r_in.time),
                    },
                )
            },
            Material::Metal(mt) => {
                let f: i64 = if mt.fuzz < SCALE {
                    mt.fuzz
                } else {
                    SCALE
                };
                let uv = r_in.direction.unit_or_default();
                let reflected = reflect(uv, rec.normal);
                let rnd = random_in_unit_sphere();
                proof {
                    crate::math::lemma_mul_within(rnd.x as int, f as int, SCALE as int, SCALE as int);
                    crate::math::lemma_mul_within(rnd.y as int, f as int, SCALE as int, SCALE as int);
                    crate::math::lemma_mul_within(rnd.z as int, f as int, SCALE as int, SCALE as int);
                    crate::math::lemma_div0_within(
                        rnd.x as int * f as int,
                        SCALE as int,
                        SCALE as int * SCALE as int,
                    );
                    crate::math::lemma_div0_within(
                        rnd.y as int * f as int,
                        SCALE as int,
                        SCALE as int * SCALE as int,
                    );
                    crate::math::lemma_div0_within(
                        rnd.z as int * f as int,
                        SCALE as int,
                        SCALE as int * SCALE as int,
                    );
                    lemma_div_scale_mult(SCALE as int);
                }
                let ghost grnd = rnd;
                let fuzzed = rnd.scale(f);
                let candidate = reflected.add(fuzzed);
                proof {
                    assert(in_sphere(grnd) && candidate == metal_candidate(*mt, *r_in, *rec, grnd));
                }
                metal_decide(mt.albedo, candidate, rec.p, rec.normal, r_in.time)
            },
            Material::Dielectric(d) => {
                let uv = r_in.direction.unit_or_default();
                let dn = r_in.direction.dot(&rec.normal);
                let outward: Vec3 = if dn > 0 {
                    rec.normal.neg()
                } else {
                    rec.normal
                };
                let ni: i64 = if dn > 0 {
                    d.refract_idx
                } else {
                    proof {
                        assert(SCALE as int * SCALE as int == (4 * SCALE as int) * 16384
                            && SCALE as int * SCALE as int == 16384 * (4 * SCALE as int))
                            by (nonlinear_arith)
                            requires
                                SCALE as int == 65536,
                        ;
                        crate::math::lemma_div0_within(
                            SCALE as int * SCALE as int,
                            d.refract_idx as int,
                            SCALE as int * SCALE as int,
                        );
                        vstd::arithmetic::div_mod::lemma_div_is_ordered_by_denominator(
                            SCALE as int * SCALE as int,
                            16384,
                            d.refract_idx as int,
                        );
                        vstd::arithmetic::div_mod::lemma_div_by_multiple(4 * SCALE as int, 16384);
                        vstd::arithmetic::div_mod::lemma_div_is_ordered_by_denominator(
                            SCALE as int * SCALE as int,
                            d.refract_idx as int,
                            4 * SCALE as int,
                        );
                        vstd::arithmetic::div_mod::lemma_div_by_multiple(16384, 4 * SCALE as int);
                    }
                    crate::math::div_i128(
                        (SCALE as i128) * (SCALE as i128),
                        d.refract_idx as i128,
                    ) as i64
                };
                let reflected = reflect(uv, rec.normal);
                let attenuation = Vec3::new(SCALE, SCALE, SCALE);
                match refract(&uv, &outward, ni) {
                    Option::Some(refracted) => {
                        let dtu: i64 = crate::math::div_i128(uv.dot(&rec.normal), SCALE as i128)
                            as i64;
                        proof {
                            lemma_quasi_dot(uv, rec.normal);
                            crate::math::lemma_div0_within(
                                sdot(uv, rec.normal),
                                SCALE as int,
                                (24 * SCALE as int) * SCALE as int,
                            );
                            lemma_div_scale_mult(24 * SCALE as int);
                            crate::math::lemma_mul_within(
                                d.refract_idx as int,
                                dtu as int,
                                4 * SCALE as int,
                                24 * SCALE as int,
                            );
                            crate::math::lemma_div0_within(
                                d.refract_idx as int * dtu as int,
                                SCALE as int,
                                (96 * SCALE as int) * SCALE as int,
                            );
                            lemma_div_scale_mult(96 * SCALE as int);
                        }
                        let cosine: i64 = if dn > 0 {
                            crate::math::div_i128(
                                (d.refract_idx as i128) * (dtu as i128),
                                SCALE as i128,
                            ) as i64
                        } else {
                            -dtu
                        };
                        let reflect_prob = schlick(cosine, d.refract_idx);
                        let u = rand_below(SCALE as u64) as i64;
                        proof {
                            assert(cosine as int == diel_cosine(*d, *r_in, *rec));
                            assert(diel_choice(
                                u as int,
                                schlick_spec(diel_cosine(*d, *r_in, *rec), d.refract_idx as int),
                                refracted,
                                reflected,
                            ) == if u > reflect_prob {
                                refracted
                            } else {
                                reflected
                            });
                        }
                        if u > reflect_prob {
                            Option::Some(
                                ScatterRecord {
                                    attenuation,
                                    scattered: Ray::new(rec.p, refracted, r_in.time),
                                },
                            )
                        } else {
                            Option::Some(
                                ScatterRecord {
                                    attenuation,
                                    scattered: Ray::new(rec.p, reflected, r_in.time),
                                },
                            )
                        }
                    },
                    Option::None => Option::Some(
                        ScatterRecord {
                            attenuation,
                            scattered: Ray::new(rec.p, reflected, r_in.time),
                        },
                    ),
                }
            },
            Material::DiffuseLight(_) => Option::None,
            Material::Isotropic(i) => {
                let dir = random_in_unit_sphere();
                let attenuation = i.albedo.value(rec.u, rec.v, &rec.p);
                Option::Some(
                    ScatterRecord {
                        attenuation,
                        scattered: Ray::new(rec.p, dir, r_in.time),
                    },
                )
            },
        }
    }

    /// Emitted radiance: the light's texture value; zero for every other
    /// surface.
    pub fn emitted(&self, u: i64, v: i64, p: &Vec3) -> (r: Vec3)
        requires
            material_wf(*self),
            0 <= u <= SCALE,
            0 <= v <= SCALE,
            vec_within(*p, B57 as int),
        ensures
            emitted_ok(*self, u as int, v as int, *p, r),
            vec_within(r, B30 as int),
    {
        match self {
            Material::DiffuseLight(l) => l.emit.value(u, v, p),
            _ => Vec3::zeros(),
        }
    }
}

} // verus!
