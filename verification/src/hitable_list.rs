//! An ordered collection of scene objects, queried by testing every member
//! and keeping the nearest accepted hit.

use vstd::prelude::*;

use crate::aabb::{hit_box_wf, surrounding_box, AABB};
use crate::hitable::{rec_wf, HitRecord, Hitable};
use crate::math::{within, B38};
use crate::ray::Ray;

verus! {

pub struct HitableList {
    pub hitables: Vec<Hitable>,
}

impl HitableList {
    pub fn size(&self) -> (r: usize)
        ensures
            r == self.hitables@.len(),
    {
        self.hitables.len()
    }

    /// Fold the members' queries, narrowing the upper bound to the closest
    /// accepted parameter so the result is the minimum valid hit. An empty
    /// list never hits.
    pub fn hit(&self, r: &Ray, t_min: i64, t_max: i64) -> (res: Option<HitRecord>)
        requires
            forall|i: int|
                0 <= i < self.hitables@.len() ==> crate::hitable::hitable_wf(
                    #[trigger] self.hitables@[i],
                ),
            crate::hitable::ray_wf(*r, t_min as int, t_max as int),
        ensures
            res matches Option::Some(rec) ==> rec_wf(rec, t_min as int, t_max as int),
            self.hitables@.len() == 0 ==> res is None,
            crate::hitable::det_fold(*self, 0, Option::None, *r, t_min as int, t_max as int)
                matches Option::Some(out) ==> res == out,
            exists|steps: Seq<Option<HitRecord>>|
            #![trigger crate::hitable::list_outcome(*self, steps, 0, Option::None, *r, t_min as int, t_max as int, res)]
            crate::hitable::list_outcome(
                *self,
                steps,
                0,
                Option::None,
                *r,
                t_min as int,
                t_max as int,
                res,
            ),
        decreases *self,
    {
        let mut closest_so_far: i64 = t_max;
        let mut hit_anything: Option<HitRecord> = Option::None;
        let ghost mut gsteps: Seq<Option<HitRecord>> = Seq::empty();
        let ghost mut gpriors: Seq<Option<HitRecord>> = seq![Option::None];
        let n = self.hitables.len();
        let mut i: usize = 0;
        while i < n
            invariant
                n == self.hitables@.len(),
                i <= n,
                forall|j: int|
                    0 <= j < self.hitables@.len() ==> crate::hitable::hitable_wf(
                        #[trigger] self.hitables@[j],
                    ),
                crate::hitable::ray_wf(*r, t_min as int, t_max as int),
                within(closest_so_far as int, B38 as int),
                closest_so_far <= t_max,
                i == 0 ==> hit_anything is None,
                closest_so_far as int == crate::hitable::cur_max(hit_anything, t_max as int),
                gsteps.len() == i as int,
                gpriors.len() == i as int + 1,
                gpriors[0] == Option::<HitRecord>::None,
                gpriors[i as int] == hit_anything,
                forall|j: int|
                    0 <= j < i as int ==> crate::hitable::hit_ok(
                        #[trigger] self.hitables@[j],
                        *r,
                        t_min as int,
                        crate::hitable::cur_max(gpriors[j], t_max as int),
                        gsteps[j],
                    ),
                forall|j: int|
                    0 <= j < i as int ==> gpriors[j + 1] == crate::hitable::merge_step(
                        gpriors[j],
                        #[trigger] gsteps[j],
                    ),
                forall|z: Option<HitRecord>|
                    crate::hitable::det_fold(
                        *self,
                        0,
                        Option::None,
                        *r,
                        t_min as int,
                        t_max as int,
                    ) == Option::Some(z) ==> crate::hitable::det_fold(
                        *self,
                        i as int,
                        hit_anything,
                        *r,
                        t_min as int,
                        t_max as int,
                    ) == Option::Some(z),
                hit_anything matches Option::Some(rec) ==> rec_wf(
                    rec,
                    t_min as int,
                    t_max as int,
                ) && rec.t == closest_so_far,
            decreases n - i,
        {
            assert(crate::hitable::hitable_wf(self.hitables@[i as int]));
            let ghost prior = hit_anything;
            let step = self.hitables[i].hit(r, t_min, closest_so_far);
            let ghost gstep = step;
            match step {
                Option::Some(rec) => {
                    closest_so_far = rec.t;
                    hit_anything = Option::Some(rec);
                },
                Option::None => {},
            }
            proof {
                assert(hit_anything == crate::hitable::merge_step(prior, gstep));
                gsteps = gsteps.push(gstep);
                gpriors = gpriors.push(hit_anything);
            }
            i = i + 1;
        }
        proof {
            crate::hitable::lemma_list_outcome_chain(
                *self,
                gsteps,
                gpriors,
                0,
                *r,
                t_min as int,
                t_max as int,
            );
            assert(crate::hitable::list_outcome(
                *self,
                gsteps,
                0,
                Option::None,
                *r,
                t_min as int,
                t_max as int,
                hit_anything,
            ));
        }
        hit_anything
    }

    /// The union of the members' boxes; `None` when the list is empty or a
    /// member has no box.
    pub fn bounding_box(&self, t0: i64, t1: i64) -> (res: Option<AABB>)
        requires
            forall|i: int|
                0 <= i < self.hitables@.len() ==> crate::hitable::hitable_wf(
                    #[trigger] self.hitables@[i],
                ),
            within(t0 as int, B38 as int),
            within(t1 as int, B38 as int),
        ensures
            res == crate::hitable::list_bbox(*self, t0 as int, t1 as int),
            res matches Option::Some(b) ==> hit_box_wf(b),
        decreases *self,
    {
        let n = self.hitables.len();
        if n == 0 {
            return Option::None;
        }
        assert(crate::hitable::hitable_wf(self.hitables@[0]));
        let mut bbox: AABB = match self.hitables[0].bounding_box(t0, t1) {
            Option::Some(b) => b,
            Option::None => {
                return Option::None;
            },
        };
        let mut i: usize = 1;
        while i < n
            invariant
                n == self.hitables@.len(),
                1 <= i <= n,
                forall|j: int|
                    0 <= j < self.hitables@.len() ==> crate::hitable::hitable_wf(
                        #[trigger] self.hitables@[j],
                    ),
                within(t0 as int, B38 as int),
                within(t1 as int, B38 as int),
                hit_box_wf(bbox),
                crate::hitable::list_bbox_from(*self, i as int, bbox, t0 as int, t1 as int)
                    == crate::hitable::list_bbox(*self, t0 as int, t1 as int),
            decreases n - i,
        {
            assert(crate::hitable::hitable_wf(self.hitables@[i as int]));
            match self.hitables[i].bounding_box(t0, t1) {
                Option::Some(b) => {
                    bbox = surrounding_box(bbox, b);
                },
                Option::None => {
                    return Option::None;
                },
            }
            i = i + 1;
        }
        Option::Some(bbox)
    }
}

} // verus!
