//! A parametric ray: origin, direction, and the shutter instant it samples.

use vstd::prelude::*;

use crate::math::{div0, within, B39, SCALE};
use crate::vec3::{vec_within, Vec3};

verus! {

#[derive(Clone, Copy, PartialEq, Eq, Structural, Debug)]
pub struct Ray {
    pub origin: Vec3,
    pub direction: Vec3,
    pub time: i64,
}

/// The point the ray reaches at parameter `t`, componentwise.
pub open spec fn ray_at(r: Ray, t: int) -> Vec3 {
    Vec3 {
        x: (r.origin.x + div0(t * r.direction.x, SCALE as int)) as i64,
        y: (r.origin.y + div0(t * r.direction.y, SCALE as int)) as i64,
        z: (r.origin.z + div0(t * r.direction.z, SCALE as int)) as i64,
    }
}

/// A point reached within the parameter bound stays inside the working
/// point bound.
pub proof fn lemma_ray_at_bounds(r: Ray, t: int)
    requires
        vec_within(r.origin, crate::math::B33 as int),
        vec_within(r.direction, crate::math::B26 as int),
        within(t, crate::math::B38 as int),
    ensures
        vec_within(ray_at(r, t), crate::math::B57 as int),
{
    crate::math::lemma_mul_within(t, r.direction.x as int, crate::math::B38 as int, crate::math::B26 as int);
    crate::math::lemma_mul_within(t, r.direction.y as int, crate::math::B38 as int, crate::math::B26 as int);
    crate::math::lemma_mul_within(t, r.direction.z as int, crate::math::B38 as int, crate::math::B26 as int);
    crate::math::lemma_div0_within(
        t * r.direction.x as int,
        SCALE as int,
        crate::math::B38 as int * crate::math::B26 as int,
    );
    crate::math::lemma_div0_within(
        t * r.direction.y as int,
        SCALE as int,
        crate::math::B38 as int * crate::math::B26 as int,
    );
    crate::math::lemma_div0_within(
        t * r.direction.z as int,
        SCALE as int,
        crate::math::B38 as int * crate::math::B26 as int,
    );
    assert(crate::math::B38 as int * crate::math::B26 as int == 0x1_0000_0000_0000
        * SCALE as int) by (nonlinear_arith)
        requires
            crate::math::B38 as int == 0x40_0000_0000,
            crate::math::B26 as int == 0x400_0000,
            SCALE as int == 65536,
    ;
    vstd::arithmetic::div_mod::lemma_div_by_multiple(0x1_0000_0000_0000, SCALE as int);
}

impl Ray {
    pub fn new(origin: Vec3, direction: Vec3, time: i64) -> (r: Ray)
        ensures
            r == (Ray { origin, direction, time }),
    {
        Ray { origin, direction, time }
    }

    pub fn origin(&self) -> (r: Vec3)
        ensures
            r == self.origin,
    {
        self.origin
    }

    pub fn direction(&self) -> (r: Vec3)
        ensures
            r == self.direction,
    {
        self.direction
    }

    pub fn time(&self) -> (r: i64)
        ensures
            r == self.time,
    {
        self.time
    }

    pub fn point_at_parameter(&self, t: i64) -> (r: Vec3)
        requires
            vec_within(self.origin, B39 as int),
            vec_within(self.direction, B39 as int),
            within(t as int, B39 as int),
        ensures
            r == ray_at(*self, t as int),
    {
        self.origin.add(self.direction.scale(t))
    }
}

} // verus!
