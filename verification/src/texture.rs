//! Color sources evaluated at a surface parametrization and a point:
//! constant color, checkerboard, marble-like noise, and image lookup.

use vstd::prelude::*;

use crate::math::{div_i128, B30, B57, SCALE};
use crate::perlin::{perlin_wf, Perlin};
use crate::trig::{sin_fp, sin_spec};
use crate::vec3::{vec_within, Vec3};

verus! {

#[derive(Clone)]
pub struct ConstantTexture {
    pub color: Vec3,
}

pub struct CheckerTexture {
    pub odd: Box<Texture>,
    pub even: Box<Texture>,
}

#[derive(Clone)]
pub struct NoiseTexture {
    pub noise: Perlin,
    pub scale: i64,
}

#[derive(Clone)]
pub struct ImageTexture {
    pub data: Vec<u8>,
    pub nx: u32,
    pub ny: u32,
}

pub enum Texture {
    Constant(ConstantTexture),
    Checker(CheckerTexture),
    Noise(NoiseTexture),
    Image(ImageTexture),
}

pub open spec fn image_wf(t: ImageTexture) -> bool {
    &&& 1 <= t.nx <= 8192
    &&& 1 <= t.ny <= 8192
    &&& t.data@.len() == 3 * t.nx * t.ny
}

pub open spec fn texture_wf(t: Texture) -> bool
    decreases t,
{
    match t {
        Texture::Constant(c) => vec_within(c.color, B30 as int),
        Texture::Checker(c) => texture_wf(*c.odd) && texture_wf(*c.even),
        Texture::Noise(n) => perlin_wf(n.noise) && 0 <= n.scale <= 4 * SCALE,
        Texture::Image(im) => image_wf(im),
    }
}

/// The checkerboard parity: the sign of `sin(10x) sin(10y) sin(10z)`, taken
/// over the crate's sine.
pub open spec fn checker_odd(p: Vec3) -> bool {
    sin_spec(10 * p.x) * sin_spec(10 * p.y) * sin_spec(10 * p.z) < 0
}

/// Nearest-texel lookup: scale `(u, 1 - v)` to pixel coordinates, clamp to
/// the image, and normalize the three bytes at that pixel to `[0, 1]`.
pub open spec fn image_texel(t: ImageTexture, u: int, v: int) -> Vec3 {
    let i0 = u * t.nx as int / SCALE as int;
    let j0 = (SCALE as int - v) * t.ny as int / SCALE as int;
    let i = if i0 > t.nx as int - 1 {
        t.nx as int - 1
    } else {
        i0
    };
    let j = if j0 > t.ny as int - 1 {
        t.ny as int - 1
    } else {
        j0
    };
    let idx = 3 * i + 3 * t.nx as int * j;
    Vec3 {
        x: (t.data@[idx] as int * SCALE as int / 255) as i64,
        y: (t.data@[idx + 1] as int * SCALE as int / 255) as i64,
        z: (t.data@[idx + 2] as int * SCALE as int / 255) as i64,
    }
}

/// The marble look of the noise texture: equal gray channels from the
/// sine of the scaled depth plus ten times the turbulence.
pub open spec fn marble_spec(n: NoiseTexture, p: Vec3) -> Vec3 {
    let arg = crate::math::div0(n.scale as int * p.z as int, SCALE as int) + 10
        * crate::perlin::turb_spec(n.noise, p, 7);
    let gray = (SCALE as int + sin_spec(arg)) / 2;
    Vec3 { x: gray as i64, y: gray as i64, z: gray as i64 }
}

/// What `Texture::value` returns: constant and image texels exactly, the
/// checker by the parity of the sine product, and the marble formula of
/// the noise texture.
pub open spec fn tex_value_ok(t: Texture, u: int, v: int, p: Vec3, r: Vec3) -> bool
    decreases t,
{
    match t {
        Texture::Constant(c) => r == c.color,
        Texture::Checker(c) => if checker_odd(p) {
            tex_value_ok(*c.odd, u, v, p, r)
        } else {
            tex_value_ok(*c.even, u, v, p, r)
        },
        Texture::Noise(n) => r == marble_spec(n, p) && 0 <= r.x <= SCALE && r.y == r.x && r.z
            == r.x,
        Texture::Image(im) => r == image_texel(im, u, v),
    }
}

impl ConstantTexture {
    pub fn new(x: i64, y: i64, z: i64) -> (r: ConstantTexture)
        ensures
            r.color == (Vec3 { x, y, z }),
    {
        ConstantTexture { color: Vec3::new(x, y, z) }
    }
}

impl CheckerTexture {
    pub fn new(odd: Texture, even: Texture) -> (r: CheckerTexture)
        ensures
            r.odd == odd,
            r.even == even,
    {
        CheckerTexture { odd: Box::new(odd), even: Box::new(even) }
    }
}

impl NoiseTexture {
    pub fn new(scale: i64) -> (r: NoiseTexture)
        requires
            0 <= scale <= 4 * SCALE,
        ensures
            r.scale == scale,
            perlin_wf(r.noise),
    {
        NoiseTexture { noise: Perlin::new(), scale }
    }
}

impl ImageTexture {
    pub fn new(data: Vec<u8>, nx: u32, ny: u32) -> (r: ImageTexture)
        ensures
            r == (ImageTexture { data, nx, ny }),
    {
        ImageTexture { data, nx, ny }
    }

    fn value(&self, u: i64, v: i64) -> (r: Vec3)
        requires
            image_wf(*self),
            0 <= u <= SCALE,
            0 <= v <= SCALE,
        ensures
            r == image_texel(*self, u as int, v as int),
            0 <= r.x <= SCALE,
            0 <= r.y <= SCALE,
            0 <= r.z <= SCALE,
    {
        let nx: u64 = self.nx as u64;
        let ny: u64 = self.ny as u64;
        proof {
            crate::math::lemma_mul_le(u as int, nx as int, SCALE as int, 8192);
            crate::math::lemma_mul_le((SCALE - v) as int, ny as int, SCALE as int, 8192);
        }
        let i0: u64 = (u as u64) * nx / (SCALE as u64);
        let j0: u64 = ((SCALE - v) as u64) * ny / (SCALE as u64);
        let i: u64 = if i0 > nx - 1 {
            nx - 1
        } else {
            i0
        };
        let j: u64 = if j0 > ny - 1 {
            ny - 1
        } else {
            j0
        };
        proof {
            crate::math::lemma_mul_le(3 * nx as int, j as int, 3 * 8192int, 8192int);
            assert(3 * i as int + 3 * nx as int * j as int + 2 < 3 * nx as int * ny as int)
                by (nonlinear_arith)
                requires
                    i < nx,
                    j < ny,
                    nx >= 1,
                    ny >= 1,
            ;
        }
        let idx: u64 = 3 * i + 3 * nx * j;
        let bx: i64 = self.data[idx as usize] as i64;
        let by: i64 = self.data[idx as usize + 1] as i64;
        let bz: i64 = self.data[idx as usize + 2] as i64;
        let rx: i64 = ((bx as u64) * (SCALE as u64) / 255) as i64;
        let ry: i64 = ((by as u64) * (SCALE as u64) / 255) as i64;
        let rz: i64 = ((bz as u64) * (SCALE as u64) / 255) as i64;
        proof {
            lemma_byte_norm(bx as int);
            lemma_byte_norm(by as int);
            lemma_byte_norm(bz as int);
        }
        Vec3::new(rx, ry, rz)
    }
}

proof fn lemma_byte_norm(b: int)
    requires
        0 <= b <= 255,
    ensures
        0 <= b * SCALE as int / 255 <= SCALE as int,
{
    assert(b * SCALE as int <= 255 * SCALE as int) by (nonlinear_arith)
        requires
            0 <= b <= 255,
    ;
    assert(b * SCALE as int >= 0) by (nonlinear_arith)
        requires
            b >= 0,
    ;
    vstd::arithmetic::div_mod::lemma_div_is_ordered(b * SCALE as int, 255 * SCALE as int, 255);
    vstd::arithmetic::div_mod::lemma_div_by_multiple(SCALE as int, 255);
    assert(255 * SCALE as int == SCALE as int * 255) by (nonlinear_arith);
    vstd::arithmetic::div_mod::lemma_div_pos_is_pos(b * SCALE as int, 255);
}

impl Texture {
    /// The texture's color at `(u, v)` and point `p`.
    pub fn value(&self, u: i64, v: i64, p: &Vec3) -> (r: Vec3)
        requires
            texture_wf(*self),
            0 <= u <= SCALE,
            0 <= v <= SCALE,
            vec_within(*p, B57 as int),
        ensures
            tex_value_ok(*self, u as int, v as int, *p, r),
            vec_within(r, B30 as int),
        decreases *self,
    {
        match self {
            Texture::Constant(c) => c.color,
            Texture::Checker(c) => {
                let sx = sin_fp(10 * p.x);
                let sy = sin_fp(10 * p.y);
                let sz = sin_fp(10 * p.z);
                proof {
                    crate::math::lemma_mul_within(
                        sx as int,
                        sy as int,
                        SCALE as int,
                        SCALE as int,
                    );
                    crate::math::lemma_mul_within(
                        sx as int * sy as int,
                        sz as int,
                        SCALE as int * SCALE as int,
                        SCALE as int,
                    );
                }
                let prod: i128 = (sx as i128) * (sy as i128) * (sz as i128);
                if prod < 0 {
                    c.odd.value(u, v, p)
                } else {
                    c.even.value(u, v, p)
                }
            },
            Texture::Noise(n) => {
                let turb = n.noise.turbulence(p, 7);
                proof {
                    crate::math::lemma_mul_within(
                        n.scale as int,
                        p.z as int,
                        4 * SCALE as int,
                        B57 as int,
                    );
                    assert((4 * SCALE as int) * B57 as int == (4 * B57 as int) * SCALE as int)
                        by (nonlinear_arith)
                        requires
                            SCALE as int == 65536,
                            B57 as int == 0x200_0000_0000_0000,
                    ;
                    crate::math::lemma_div0_within(
                        n.scale as int * p.z as int,
                        SCALE as int,
                        (4 * B57 as int) * SCALE as int,
                    );
                    vstd::arithmetic::div_mod::lemma_div_by_multiple(4 * B57 as int, SCALE as int);
                }
                let sz: i128 = (n.scale as i128) * (p.z as i128);
                let marble_z: i64 = div_i128(sz, SCALE as i128) as i64;
                let arg: i64 = marble_z + 10 * turb;
                let s = sin_fp(arg);
                let gray: i64 = (((SCALE + s) as u64) / 2) as i64;
                Vec3::new(gray, gray, gray)
            },
            Texture::Image(im) => im.value(u, v),
        }
    }
}

} // verus!
