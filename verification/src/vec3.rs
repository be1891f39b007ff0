//! Three-component vectors over the fixed-point scalar. A component holds
//! `value * SCALE`; points, directions and colors all use this one type.

use vstd::prelude::*;

use crate::math::{div0, div_i128, fp_mul, isqrt_u128, sqrt_floor, within, B30, B39, SCALE};

verus! {

#[derive(Clone, Copy, PartialEq, Eq, Structural, Debug)]
pub struct Vec3 {
    pub x: i64,
    pub y: i64,
    pub z: i64,
}

/// Every component within `bound` in magnitude.
pub open spec fn vec_within(v: Vec3, bound: int) -> bool {
    within(v.x as int, bound) && within(v.y as int, bound) && within(v.z as int, bound)
}

/// Mathematical dot product of the raw components (carries scale `SCALE^2`).
pub open spec fn sdot(a: Vec3, b: Vec3) -> int {
    a.x as int * b.x as int + a.y as int * b.y as int + a.z as int * b.z as int
}

impl Vec3 {
    pub fn new(x: i64, y: i64, z: i64) -> (r: Vec3)
        ensures
            r == (Vec3 { x, y, z }),
    {
        Vec3 { x, y, z }
    }

    pub fn zeros() -> (r: Vec3)
        ensures
            r == (Vec3 { x: 0i64, y: 0i64, z: 0i64 }),
    {
        Vec3 { x: 0, y: 0, z: 0 }
    }

    /// The unit vector along x, the fixed fallback direction.
    pub fn make_unit_vector() -> (r: Vec3)
        ensures
            r.x == SCALE && r.y == 0 && r.z == 0,
    {
        Vec3 { x: SCALE, y: 0, z: 0 }
    }

    pub fn add(self, o: Vec3) -> (r: Vec3)
        requires
            within(self.x + o.x, i64::MAX as int),
            within(self.y + o.y, i64::MAX as int),
            within(self.z + o.z, i64::MAX as int),
        ensures
            r.x == self.x + o.x,
            r.y == self.y + o.y,
            r.z == self.z + o.z,
    {
        Vec3 { x: self.x + o.x, y: self.y + o.y, z: self.z + o.z }
    }

    pub fn sub(self, o: Vec3) -> (r: Vec3)
        requires
            within(self.x - o.x, i64::MAX as int),
            within(self.y - o.y, i64::MAX as int),
            within(self.z - o.z, i64::MAX as int),
        ensures
            r.x == self.x - o.x,
            r.y == self.y - o.y,
            r.z == self.z - o.z,
    {
        Vec3 { x: self.x - o.x, y: self.y - o.y, z: self.z - o.z }
    }

    pub fn neg(self) -> (r: Vec3)
        requires
            self.x > i64::MIN,
            self.y > i64::MIN,
            self.z > i64::MIN,
        ensures
            r.x == -self.x,
            r.y == -self.y,
            r.z == -self.z,
    {
        Vec3 { x: -self.x, y: -self.y, z: -self.z }
    }

    /// Componentwise fixed-point scaling by `s`.
    pub fn scale(self, s: i64) -> (r: Vec3)
        requires
            vec_within(self, B39 as int),
            within(s as int, B39 as int),
        ensures
            r.x == div0(self.x * s, SCALE as int),
            r.y == div0(self.y * s, SCALE as int),
            r.z == div0(self.z * s, SCALE as int),
            vec_within(r, 0x4000_0000_0000_0000),
    {
        Vec3 { x: fp_mul(self.x, s), y: fp_mul(self.y, s), z: fp_mul(self.z, s) }
    }

    /// Componentwise fixed-point product, used for color attenuation.
    pub fn mul(self, o: Vec3) -> (r: Vec3)
        requires
            vec_within(self, B39 as int),
            vec_within(o, B39 as int),
        ensures
            r.x == div0(self.x * o.x, SCALE as int),
            r.y == div0(self.y * o.y, SCALE as int),
            r.z == div0(self.z * o.z, SCALE as int),
            vec_within(r, 0x4000_0000_0000_0000),
    {
        Vec3 { x: fp_mul(self.x, o.x), y: fp_mul(self.y, o.y), z: fp_mul(self.z, o.z) }
    }

    /// Dot product over the raw components; the result carries scale
    /// `SCALE^2` and is exact.
    pub fn dot(&self, o: &Vec3) -> (r: i128)
        requires
            vec_within(*self, B39 as int),
            vec_within(*o, B39 as int),
        ensures
            r == sdot(*self, *o),
            within(r as int, 3 * (B39 as int) * (B39 as int)),
    {
        proof {
            crate::math::lemma_mul_within(self.x as int, o.x as int, B39 as int, B39 as int);
            crate::math::lemma_mul_within(self.y as int, o.y as int, B39 as int, B39 as int);
            crate::math::lemma_mul_within(self.z as int, o.z as int, B39 as int, B39 as int);
        }
        (self.x as i128) * (o.x as i128) + (self.y as i128) * (o.y as i128) + (self.z as i128)
            * (o.z as i128)
    }

    /// Cross product, rescaled back to fixed point.
    pub fn cross(&self, o: &Vec3) -> (r: Vec3)
        requires
            vec_within(*self, B30 as int),
            vec_within(*o, B30 as int),
        ensures
            r == cross_spec(*self, *o),
            r.x == div0(self.y * o.z - self.z * o.y, SCALE as int),
            r.y == div0(self.z * o.x - self.x * o.z, SCALE as int),
            r.z == div0(self.x * o.y - self.y * o.x, SCALE as int),
            vec_within(r, 2 * (B30 as int) * (B30 as int) / SCALE as int),
    {
        proof {
            crate::math::lemma_mul_within(self.y as int, o.z as int, B30 as int, B30 as int);
            crate::math::lemma_mul_within(self.z as int, o.y as int, B30 as int, B30 as int);
            crate::math::lemma_mul_within(self.z as int, o.x as int, B30 as int, B30 as int);
            crate::math::lemma_mul_within(self.x as int, o.z as int, B30 as int, B30 as int);
            crate::math::lemma_mul_within(self.x as int, o.y as int, B30 as int, B30 as int);
            crate::math::lemma_mul_within(self.y as int, o.x as int, B30 as int, B30 as int);
            crate::math::lemma_div0_within(
                self.y as int * o.z as int - self.z as int * o.y as int,
                SCALE as int,
                2 * (B30 as int) * (B30 as int),
            );
            crate::math::lemma_div0_within(
                self.z as int * o.x as int - self.x as int * o.z as int,
                SCALE as int,
                2 * (B30 as int) * (B30 as int),
            );
            crate::math::lemma_div0_within(
                self.x as int * o.y as int - self.y as int * o.x as int,
                SCALE as int,
                2 * (B30 as int) * (B30 as int),
            );
        }
        let cx: i128 = (self.y as i128) * (o.z as i128) - (self.z as i128) * (o.y as i128);
        let cy: i128 = (self.z as i128) * (o.x as i128) - (self.x as i128) * (o.z as i128);
        let cz: i128 = (self.x as i128) * (o.y as i128) - (self.y as i128) * (o.x as i128);
        Vec3 {
            x: div_i128(cx, SCALE as i128) as i64,
            y: div_i128(cy, SCALE as i128) as i64,
            z: div_i128(cz, SCALE as i128) as i64,
        }
    }

    /// Squared length at scale `SCALE^2`, exact.
    pub fn squared_length(&self) -> (r: i128)
        requires
            vec_within(*self, B39 as int),
        ensures
            r == sdot(*self, *self),
            0 <= r <= 3 * (B39 as int) * (B39 as int),
    {
        proof {
            lemma_sq_nonneg(self.x as int);
            lemma_sq_nonneg(self.y as int);
            lemma_sq_nonneg(self.z as int);
        }
        self.dot(self)
    }

    /// Length at scale `SCALE`: the floor square root of the squared length.
    pub fn length(&self) -> (r: i64)
        requires
            vec_within(*self, B39 as int),
        ensures
            r == sqrt_floor(sdot(*self, *self) as nat),
            0 <= r < 2 * B39,
    {
        let sq: i128 = self.squared_length();
        let r: u128 = isqrt_u128(sq as u128);
        proof {
            crate::math::lemma_sqrt_below(sq as nat, 2 * B39 as nat);
        }
        r as i64
    }

    /// Direction of `self` as a fixed-point unit vector (components in
    /// `[-SCALE, SCALE]`), by dividing each component by the length.
    pub fn unit_vector(&self) -> (r: Vec3)
        requires
            vec_within(*self, B39 as int),
            sdot(*self, *self) > 0,
        ensures
            ({
                let len = sqrt_floor(sdot(*self, *self) as nat) as int;
                &&& r.x == div0(self.x * SCALE as int, len)
                &&& r.y == div0(self.y * SCALE as int, len)
                &&& r.z == div0(self.z * SCALE as int, len)
                &&& vec_within(r, 2 * SCALE as int)
            }),
    {
        let len: i64 = self.length();
        proof {
            let n = sdot(*self, *self);
            lemma_sq_nonneg(self.x as int);
            lemma_sq_nonneg(self.y as int);
            lemma_sq_nonneg(self.z as int);
            crate::math::lemma_component_below_sqrt(self.x as int, n as nat);
            crate::math::lemma_component_below_sqrt(self.y as int, n as nat);
            crate::math::lemma_component_below_sqrt(self.z as int, n as nat);
            crate::math::lemma_sqrt_floor_bounds(n as nat);
            assert(len >= 1) by (nonlinear_arith)
                requires
                    n >= 1,
                    n < (len + 1) * (len + 1),
                    len >= 0,
            ;
            lemma_unit_div_bound(self.x as int, len as int);
            lemma_unit_div_bound(self.y as int, len as int);
            lemma_unit_div_bound(self.z as int, len as int);
        }
        Vec3 {
            x: div_i128((self.x as i128) * (SCALE as i128), len as i128) as i64,
            y: div_i128((self.y as i128) * (SCALE as i128), len as i128) as i64,
            z: div_i128((self.z as i128) * (SCALE as i128), len as i128) as i64,
        }
    }
}

/// The cross product at fixed-point scale, componentwise.
pub open spec fn cross_spec(a: Vec3, b: Vec3) -> Vec3 {
    Vec3 {
        x: div0(a.y * b.z - a.z * b.y, SCALE as int) as i64,
        y: div0(a.z * b.x - a.x * b.z, SCALE as int) as i64,
        z: div0(a.x * b.y - a.y * b.x, SCALE as int) as i64,
    }
}

/// The direction of `v` as a quasi-unit vector, with a fixed fallback for
/// the zero vector.
pub open spec fn unit_dir(v: Vec3) -> Vec3 {
    if sdot(v, v) == 0 {
        Vec3 { x: SCALE, y: 0, z: 0 }
    } else {
        let len = sqrt_floor(sdot(v, v) as nat) as int;
        Vec3 {
            x: div0(v.x * SCALE as int, len) as i64,
            y: div0(v.y * SCALE as int, len) as i64,
            z: div0(v.z * SCALE as int, len) as i64,
        }
    }
}

impl Vec3 {
    /// `unit_vector` with the zero direction mapped to a fixed unit axis,
    /// so callers never divide by a zero length.
    pub fn unit_or_default(&self) -> (r: Vec3)
        requires
            vec_within(*self, B39 as int),
        ensures
            r == unit_dir(*self),
            vec_within(r, 2 * SCALE as int),
    {
        let sq = self.squared_length();
        if sq == 0 {
            Vec3::make_unit_vector()
        } else {
            self.unit_vector()
        }
    }
}

proof fn lemma_sq_nonneg(a: int)
    by (nonlinear_arith)
    ensures
        a * a >= 0,
{
}

/// `|x| <= len` gives `|x * SCALE / len| <= 2 * SCALE` with truncation slack.
proof fn lemma_unit_div_bound(x: int, len: int)
    requires
        len >= 1,
        within(x, len),
    ensures
        within(div0(x * SCALE as int, len), 2 * SCALE as int),
{
    assert(within(x * SCALE as int, len * SCALE as int)) by (nonlinear_arith)
        requires
            within(x, len),
            len >= 1,
    ;
    if x >= 0 {
        vstd::arithmetic::div_mod::lemma_div_is_ordered(
            x * SCALE as int,
            len * SCALE as int,
            len,
        );
        vstd::arithmetic::div_mod::lemma_div_pos_is_pos(x * SCALE as int, len);
        assert((len * SCALE as int) / len == SCALE as int) by (nonlinear_arith)
            requires
                len >= 1,
        ;
    } else {
        vstd::arithmetic::div_mod::lemma_div_is_ordered(
            -(x * SCALE as int),
            len * SCALE as int,
            len,
        );
        vstd::arithmetic::div_mod::lemma_div_pos_is_pos(-(x * SCALE as int), len);
        assert((len * SCALE as int) / len == SCALE as int) by (nonlinear_arith)
            requires
                len >= 1,
        ;
    }
}

} // verus!
