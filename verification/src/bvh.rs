//! A bounding-volume node: two children behind one box. The box test can
//! only rule a ray out; when it passes, both children are queried and the
//! nearer hit wins.

use vstd::prelude::*;

use crate::aabb::{hit_box_wf, surrounding_box, AABB};
use crate::hitable::{closer, rec_wf, HitRecord, Hitable};
use crate::math::within;
use crate::ray::Ray;

verus! {

pub struct BVHNode {
    pub left: Box<Hitable>,
    pub right: Box<Hitable>,
    pub bbox: AABB,
}

impl BVHNode {
    /// Pair two objects under the surrounding box of their bounds, taken
    /// at the given shutter interval.
    pub fn new(left: Box<Hitable>, right: Box<Hitable>, t0: i64, t1: i64) -> (r: Option<BVHNode>)
        requires
            crate::hitable::hitable_wf(*left),
            crate::hitable::hitable_wf(*right),
            within(t0 as int, crate::math::B38 as int),
            within(t1 as int, crate::math::B38 as int),
        ensures
            r matches Option::Some(n) ==> n.left == left && n.right == right && hit_box_wf(
                n.bbox,
            ) && crate::hitable::hitable_wf(Hitable::Node(n)),
    {
        let lb = match left.bounding_box(t0, t1) {
            Option::Some(b) => b,
            Option::None => {
                return Option::None;
            },
        };
        let rb = match right.bounding_box(t0, t1) {
            Option::Some(b) => b,
            Option::None => {
                return Option::None;
            },
        };
        Option::Some(BVHNode { left, right, bbox: surrounding_box(lb, rb) })
    }

    /// Reject through the node's own box, then return the nearer of the
    /// two children's hits.
    pub fn hit(&self, r: &Ray, t_min: i64, t_max: i64) -> (res: Option<HitRecord>)
        requires
            crate::hitable::hitable_wf(Hitable::Node(*self)),
            crate::hitable::ray_wf(*r, t_min as int, t_max as int),
        ensures
            res matches Option::Some(rec) ==> rec_wf(rec, t_min as int, t_max as int),
            !crate::aabb::aabb_hit_spec(self.bbox, *r, t_min as int, t_max as int) ==> res
                is None,
            crate::hitable::det_hit(
                Hitable::Node(*self),
                *r,
                t_min as int,
                t_max as int,
            ) matches Option::Some(out) ==> res == out,
            crate::aabb::aabb_hit_spec(self.bbox, *r, t_min as int, t_max as int)
                ==> exists|lres: Option<HitRecord>, rres: Option<HitRecord>|
                #![trigger crate::hitable::closer_spec(lres, rres)]
                crate::hitable::hit_ok(*self.left, *r, t_min as int, t_max as int, lres)
                    && crate::hitable::hit_ok(*self.right, *r, t_min as int, t_max as int, rres)
                    && res == crate::hitable::closer_spec(lres, rres),
        decreases *self,
    {
        if !self.bbox.hit(r, t_min, t_max) {
            return Option::None;
        }
        let left_rec = self.left.hit(r, t_min, t_max);
        let right_rec = self.right.hit(r, t_min, t_max);
        let ghost gl = left_rec;
        let ghost gr = right_rec;
        let merged = closer(left_rec, right_rec);
        proof {
            assert(crate::hitable::hit_ok(*self.left, *r, t_min as int, t_max as int, gl)
                && crate::hitable::hit_ok(*self.right, *r, t_min as int, t_max as int, gr)
                && merged == crate::hitable::closer_spec(gl, gr));
        }
        merged
    }
}

} // verus!
