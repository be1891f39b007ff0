//! An axis-aligned box built from six rectangles, the three far faces
//! wrapped so every normal points outward.

use std::sync::Arc;
use vstd::prelude::*;

use crate::aabb::{hit_box_wf, AABB};
use crate::hitable::{rec_wf, FlipNormals, HitRecord, Hitable};
use crate::material::{arc_dup, material_wf, Material};
use crate::math::B30;
use crate::ray::Ray;
use crate::rectangle::{Plane, Rectangle};
use crate::vec3::{vec_within, Vec3};

verus! {

pub struct Block {
    pub pmin: Vec3,
    pub pmax: Vec3,
    pub hitablelist: crate::hitable_list::HitableList,
}

pub open spec fn block_args_wf(pmin: Vec3, pmax: Vec3) -> bool {
    &&& pmin.x < pmax.x
    &&& pmin.y < pmax.y
    &&& pmin.z < pmax.z
    &&& vec_within(pmin, B30 as int)
    &&& vec_within(pmax, B30 as int)
}

impl Block {
    /// Six faces sharing one material: the three facing away from the
    /// interior are flipped so all six normals point outward.
    pub fn new(pmin: Vec3, pmax: Vec3, material: Arc<Material>) -> (r: Block)
        requires
            block_args_wf(pmin, pmax),
            material_wf(*material),
        ensures
            r.pmin == pmin,
            r.pmax == pmax,
            r.hitablelist.hitables@.len() == 6,
            r.hitablelist.hitables@[0] == Hitable::Rect(
                Rectangle {
                    plane: Plane::XY,
                    a0: pmin.x,
                    a1: pmax.x,
                    b0: pmin.y,
                    b1: pmax.y,
                    k: pmax.z,
                    material,
                },
            ),
            r.hitablelist.hitables@[1] matches Hitable::Flip(f) && *f.hitable == Hitable::Rect(
                Rectangle {
                    plane: Plane::XY,
                    a0: pmin.x,
                    a1: pmax.x,
                    b0: pmin.y,
                    b1: pmax.y,
                    k: pmin.z,
                    material,
                },
            ),
            r.hitablelist.hitables@[2] == Hitable::Rect(
                Rectangle {
                    plane: Plane::ZX,
                    a0: pmin.z,
                    a1: pmax.z,
                    b0: pmin.x,
                    b1: pmax.x,
                    k: pmax.y,
                    material,
                },
            ),
            r.hitablelist.hitables@[3] matches Hitable::Flip(f) && *f.hitable == Hitable::Rect(
                Rectangle {
                    plane: Plane::ZX,
                    a0: pmin.z,
                    a1: pmax.z,
                    b0: pmin.x,
                    b1: pmax.x,
                    k: pmin.y,
                    material,
                },
            ),
            r.hitablelist.hitables@[4] == Hitable::Rect(
                Rectangle {
                    plane: Plane::YZ,
                    a0: pmin.y,
                    a1: pmax.y,
                    b0: pmin.z,
                    b1: pmax.z,
                    k: pmax.x,
                    material,
                },
            ),
            r.hitablelist.hitables@[5] matches Hitable::Flip(f) && *f.hitable == Hitable::Rect(
                Rectangle {
                    plane: Plane::YZ,
                    a0: pmin.y,
                    a1: pmax.y,
                    b0: pmin.z,
                    b1: pmax.z,
                    k: pmin.x,
                    material,
                },
            ),
            forall|i: int|
                0 <= i < r.hitablelist.hitables@.len() ==> crate::hitable::hitable_wf(
                    #[trigger] r.hitablelist.hitables@[i],
                ),
    {
        let f0 = Hitable::Rect(
            Rectangle::new(Plane::XY, pmin.x, pmax.x, pmin.y, pmax.y, pmax.z, arc_dup(&material)),
        );
        let f1 = Hitable::Flip(
            FlipNormals::new(
                Box::new(
                    Hitable::Rect(
                        Rectangle::new(
                            Plane::XY,
                            pmin.x,
                            pmax.x,
                            pmin.y,
                            pmax.y,
                            pmin.z,
                            arc_dup(&material),
                        ),
                    ),
                ),
            ),
        );
        let f2 = Hitable::Rect(
            Rectangle::new(Plane::ZX, pmin.z, pmax.z, pmin.x, pmax.x, pmax.y, arc_dup(&material)),
        );
        let f3 = Hitable::Flip(
            FlipNormals::new(
                Box::new(
                    Hitable::Rect(
                        Rectangle::new(
                            Plane::ZX,
                            pmin.z,
                            pmax.z,
                            pmin.x,
                            pmax.x,
                            pmin.y,
                            arc_dup(&material),
                        ),
                    ),
                ),
            ),
        );
        let f4 = Hitable::Rect(
            Rectangle::new(Plane::YZ, pmin.y, pmax.y, pmin.z, pmax.z, pmax.x, arc_dup(&material)),
        );
        let f5 = Hitable::Flip(
            FlipNormals::new(
                Box::new(
                    Hitable::Rect(
                        Rectangle::new(
                            Plane::YZ,
                            pmin.y,
                            pmax.y,
                            pmin.z,
                            pmax.z,
                            pmin.x,
                            arc_dup(&material),
                        ),
                    ),
                ),
            ),
        );
        proof {
            assert(crate::hitable::hitable_wf(f0));
            assert(match f1 {
                Hitable::Flip(f) => crate::hitable::hitable_wf(*f.hitable),
                _ => true,
            });
            assert(crate::hitable::hitable_wf(f1));
            assert(crate::hitable::hitable_wf(f2));
            assert(match f3 {
                Hitable::Flip(f) => crate::hitable::hitable_wf(*f.hitable),
                _ => true,
            });
            assert(crate::hitable::hitable_wf(f3));
            assert(crate::hitable::hitable_wf(f4));
            assert(match f5 {
                Hitable::Flip(f) => crate::hitable::hitable_wf(*f.hitable),
                _ => true,
            });
            assert(crate::hitable::hitable_wf(f5));
        }
        let ghost g0 = f0;
        let ghost g1 = f1;
        let ghost g2 = f2;
        let ghost g3 = f3;
        let ghost g4 = f4;
        let ghost g5 = f5;
        let mut faces: Vec<Hitable> = Vec::new();
        faces.push(f0);
        faces.push(f1);
        faces.push(f2);
        faces.push(f3);
        faces.push(f4);
        faces.push(f5);
        proof {
            assert(faces@.len() == 6);
            assert(faces@[0] == g0);
            assert(faces@[1] == g1);
            assert(faces@[2] == g2);
            assert(faces@[3] == g3);
            assert(faces@[4] == g4);
            assert(faces@[5] == g5);
        }
        Block { pmin, pmax, hitablelist: crate::hitable_list::HitableList { hitables: faces } }
    }

    pub fn hit(&self, r: &Ray, t_min: i64, t_max: i64) -> (res: Option<HitRecord>)
        requires
            forall|i: int|
                0 <= i < self.hitablelist.hitables@.len() ==> crate::hitable::hitable_wf(
                    #[trigger] self.hitablelist.hitables@[i],
                ),
            crate::hitable::ray_wf(*r, t_min as int, t_max as int),
        ensures
            res matches Option::Some(rec) ==> rec_wf(rec, t_min as int, t_max as int),
            crate::hitable::det_fold(
                self.hitablelist,
                0,
                Option::None,
                *r,
                t_min as int,
                t_max as int,
            ) matches Option::Some(out) ==> res == out,
            exists|steps: Seq<Option<HitRecord>>|
            #![trigger crate::hitable::list_outcome(self.hitablelist, steps, 0, Option::None, *r, t_min as int, t_max as int, res)]
            crate::hitable::list_outcome(
                self.hitablelist,
                steps,
                0,
                Option::None,
                *r,
                t_min as int,
                t_max as int,
                res,
            ),
    {
        self.hitablelist.hit(r, t_min, t_max)
    }

    /// Exactly the corner-to-corner box, for every shutter interval.
    pub fn bounding_box(&self, _t0: i64, _t1: i64) -> (res: Option<AABB>)
        requires
            vec_within(self.pmin, B30 as int),
            vec_within(self.pmax, B30 as int),
        ensures
            res == Option::Some(AABB { min: self.pmin, max: self.pmax }),
            res matches Option::Some(b) ==> hit_box_wf(b),
    {
        Option::Some(AABB::new(self.pmin, self.pmax))
    }
}

} // verus!
