//! The intersection capability: the hit record an intersection query
//! produces, and the closed family of scene objects that can be queried.

use std::sync::Arc;
use vstd::prelude::*;

use crate::aabb::AABB;
use crate::block::Block;
use crate::material::{material_wf, Material};
use crate::math::{within, B33, B38, SCALE};
use crate::medium::ConstantMedium;
use crate::ray::Ray;
use crate::rectangle::Rectangle;
use crate::sphere::{MovingSphere, Sphere};
use crate::translate::{Rotate, Translate};
use crate::vec3::{vec_within, Vec3};

verus! {

broadcast use vstd::std_specs::vec::axiom_vec_index_decreases, vstd::std_specs::vec::axiom_vec_decreases_to_view, vstd::seq::axiom_seq_index_decreases;

pub struct HitRecord {
    pub t: i64,
    pub u: i64,
    pub v: i64,
    pub p: Vec3,
    pub normal: Vec3,
    pub material: Arc<Material>,
}

/// What every intersection query promises of a returned record: the
/// parameter strictly inside the query interval, the surface
/// parametrization in `[0, 1]`, the point and normal within the working
/// bounds, and a well-formed material.
pub open spec fn rec_wf(rec: HitRecord, t_min: int, t_max: int) -> bool {
    &&& t_min < rec.t < t_max
    &&& 0 <= rec.u <= SCALE
    &&& 0 <= rec.v <= SCALE
    &&& vec_within(rec.p, crate::math::B57 as int)
    &&& vec_within(rec.normal, 4 * SCALE as int)
    &&& material_wf(*rec.material)
}

/// The closed family of scene objects.
pub enum Hitable {
    Sphere(Sphere),
    MovingSphere(MovingSphere),
    Rect(Rectangle),
    Flip(FlipNormals),
    Translated(Translate),
    Rotated(Rotate),
    Medium(ConstantMedium),
    Block(Block),
    List(crate::hitable_list::HitableList),
    Node(crate::bvh::BVHNode),
}

pub struct FlipNormals {
    pub hitable: Box<Hitable>,
}

impl FlipNormals {
    pub fn new(hitable: Box<Hitable>) -> (r: FlipNormals)
        ensures
            r.hitable == hitable,
    {
        FlipNormals { hitable }
    }
}

/// Geometric well-formedness of a scene object, recursively.
pub open spec fn hitable_wf(h: Hitable) -> bool
    decreases h,
{
    match h {
        Hitable::Sphere(s) => crate::sphere::sphere_wf(s),
        Hitable::MovingSphere(s) => crate::sphere::moving_sphere_wf(s),
        Hitable::Rect(rc) => crate::rectangle::rect_wf(rc),
        Hitable::Flip(f) => hitable_wf(*f.hitable),
        Hitable::Translated(t) => vec_within(t.offset, crate::math::B30 as int) && hitable_wf(
            *t.hitable,
        ),
        Hitable::Rotated(t) => within(t.sin_theta as int, SCALE as int) && within(
            t.cos_theta as int,
            SCALE as int,
        ) && hitable_wf(*t.hitable),
        Hitable::Medium(m) => 1 <= m.density <= crate::math::B30 && material_wf(*m.phase_function)
            && hitable_wf(*m.boundary),
        Hitable::Block(b) => crate::block::block_args_wf(b.pmin, b.pmax) && (forall|i: int|
            0 <= i < b.hitablelist.hitables@.len() ==> hitable_wf(
                #[trigger] b.hitablelist.hitables@[i],
            )),
        Hitable::List(l) => forall|i: int|
            0 <= i < l.hitables@.len() ==> hitable_wf(#[trigger] l.hitables@[i]),
        Hitable::Node(n) => hitable_wf(*n.left) && hitable_wf(*n.right) && crate::aabb::hit_box_wf(
            n.bbox,
        ),
    }
}

/// The bounding box every object reports, as a function: the leaves'
/// exact boxes, children's boxes shifted or taken verbatim by the
/// wrappers, the fold of the members' boxes for a list, and the stored box
/// for a node. `None` arises only from an empty list or a wrapper's range
/// guard.
pub open spec fn bbox_spec(h: Hitable, t0: int, t1: int) -> Option<AABB>
    decreases h,
{
    match h {
        Hitable::Sphere(s) => Option::Some(
            crate::sphere::sphere_box(s.center, s.radius as int),
        ),
        Hitable::MovingSphere(m) => Option::Some(
            crate::aabb::surrounding_box_spec(
                crate::sphere::sphere_box(crate::sphere::lerp_center(m, t0), m.radius as int),
                crate::sphere::sphere_box(crate::sphere::lerp_center(m, t1), m.radius as int),
            ),
        ),
        Hitable::Rect(rc) => Option::Some(crate::rectangle::rect_box(rc)),
        Hitable::Flip(f) => bbox_spec(*f.hitable, t0, t1),
        Hitable::Translated(t) => match bbox_spec(*t.hitable, t0, t1) {
            Option::Some(b) => {
                let mn = Vec3 {
                    x: (b.min.x + t.offset.x) as i64,
                    y: (b.min.y + t.offset.y) as i64,
                    z: (b.min.z + t.offset.z) as i64,
                };
                let mx = Vec3 {
                    x: (b.max.x + t.offset.x) as i64,
                    y: (b.max.y + t.offset.y) as i64,
                    z: (b.max.z + t.offset.z) as i64,
                };
                if vec_within(mn, 8 * B33 as int) && vec_within(mx, 8 * B33 as int) {
                    Option::Some(AABB { min: mn, max: mx })
                } else {
                    Option::None
                }
            },
            Option::None => Option::None,
        },
        Hitable::Rotated(t) => match t.bbox {
            Option::Some(b) => if crate::aabb::hit_box_wf(b) {
                Option::Some(b)
            } else {
                Option::None
            },
            Option::None => Option::None,
        },
        Hitable::Medium(m) => bbox_spec(*m.boundary, t0, t1),
        Hitable::Block(b) => Option::Some(AABB { min: b.pmin, max: b.pmax }),
        Hitable::List(l) => list_bbox(l, t0, t1),
        Hitable::Node(n) => Option::Some(n.bbox),
    }
}

/// The fold of a list's boxes: `None` for an empty list or when any member
/// has no box.
pub open spec fn list_bbox(l: crate::hitable_list::HitableList, t0: int, t1: int) -> Option<
    AABB,
>
    decreases l, l.hitables@.len() + 1,
{
    if l.hitables@.len() == 0 {
        Option::None
    } else {
        match bbox_spec(l.hitables@[0], t0, t1) {
            Option::Some(b) => list_bbox_from(l, 1, b, t0, t1),
            Option::None => Option::None,
        }
    }
}

/// The fold continued from member `i` with the accumulated box so far.
pub open spec fn list_bbox_from(
    l: crate::hitable_list::HitableList,
    i: int,
    acc: AABB,
    t0: int,
    t1: int,
) -> Option<AABB>
    decreases l, l.hitables@.len() - i,
{
    if !(0 <= i < l.hitables@.len()) {
        Option::Some(acc)
    } else {
        match bbox_spec(l.hitables@[i], t0, t1) {
            Option::Some(b) => list_bbox_from(
                l,
                i + 1,
                crate::aabb::surrounding_box_spec(acc, b),
                t0,
                t1,
            ),
            Option::None => Option::None,
        }
    }
}

/// Componentwise sum and difference of points, for the translate wrapper.
pub open spec fn shift_vec(v: Vec3, o: Vec3) -> Vec3 {
    Vec3 { x: (v.x + o.x) as i64, y: (v.y + o.y) as i64, z: (v.z + o.z) as i64 }
}

pub open spec fn unshift_vec(v: Vec3, o: Vec3) -> Vec3 {
    Vec3 { x: (v.x - o.x) as i64, y: (v.y - o.y) as i64, z: (v.z - o.z) as i64 }
}

/// Rotation about the y axis by the fixed-point cosine and sine `c`, `s`;
/// the inverse rotation is `rot_vec(v, c, -s)`.
pub open spec fn rot_vec(v: Vec3, c: int, s: int) -> Vec3 {
    Vec3 {
        x: (crate::math::div0(c * v.x, SCALE as int) + crate::math::div0(
            s * v.z,
            SCALE as int,
        )) as i64,
        y: v.y,
        z: (crate::math::div0(c * v.z, SCALE as int) + crate::math::div0(
            (-s) * v.x,
            SCALE as int,
        )) as i64,
    }
}

/// A record with its normal negated, as the flip wrapper reports it.
pub open spec fn flip_rec(rec: HitRecord) -> HitRecord {
    HitRecord {
        t: rec.t,
        u: rec.u,
        v: rec.v,
        p: rec.p,
        normal: Vec3 {
            x: (-rec.normal.x) as i64,
            y: (-rec.normal.y) as i64,
            z: (-rec.normal.z) as i64,
        },
        material: rec.material,
    }
}

pub open spec fn flip_res(res: Option<HitRecord>) -> Option<HitRecord> {
    match res {
        Option::Some(rec) => Option::Some(flip_rec(rec)),
        Option::None => Option::None,
    }
}

/// The interval's upper bound after a prior best hit: that hit's
/// parameter, or the original bound when none stands yet.
pub open spec fn cur_max(prior: Option<HitRecord>, t_max: int) -> int {
    match prior {
        Option::Some(rec) => rec.t as int,
        Option::None => t_max,
    }
}

/// A member's outcome replaces the prior best exactly when it is a hit.
pub open spec fn merge_step(prior: Option<HitRecord>, step: Option<HitRecord>) -> Option<
    HitRecord,
> {
    match step {
        Option::Some(rec) => Option::Some(rec),
        Option::None => prior,
    }
}

/// The allowed outcomes of an intersection query, per variant: the
/// deterministic leaves are pinned exactly; the wrappers relate the result
/// to an allowed outcome of the child on the transformed ray, with `None`
/// otherwise only under a named range guard; the medium (whose draw no
/// contract can name) pins the shape of any returned record; a list folds
/// its members keeping the nearest accepted hit; a node rejects through
/// its box and returns the closer of two allowed child outcomes.
pub open spec fn hit_ok(h: Hitable, r: Ray, t_min: int, t_max: int, res: Option<HitRecord>) -> bool
    decreases h,
{
    match h {
        Hitable::Sphere(s) => crate::sphere::sphere_hit_ok(
            s.center,
            s.radius as int,
            *s.material,
            r,
            t_min,
            t_max,
            res,
        ),
        Hitable::MovingSphere(m) => crate::sphere::sphere_hit_ok(
            crate::sphere::lerp_center(m, r.time as int),
            m.radius as int,
            *m.material,
            r,
            t_min,
            t_max,
            res,
        ),
        Hitable::Rect(rc) => crate::rectangle::rect_hit_ok(rc, r, t_min, t_max, res),
        Hitable::Flip(f) => hit_ok(*f.hitable, r, t_min, t_max, flip_res(res)),
        Hitable::Translated(t) => {
            let moved = Ray {
                origin: unshift_vec(r.origin, t.offset),
                direction: r.direction,
                time: r.time,
            };
            if !vec_within(moved.origin, B33 as int) {
                res is None
            } else {
                match res {
                    Option::Some(rec) => hit_ok(
                        *t.hitable,
                        moved,
                        t_min,
                        t_max,
                        Option::Some(
                            HitRecord {
                                t: rec.t,
                                u: rec.u,
                                v: rec.v,
                                p: unshift_vec(rec.p, t.offset),
                                normal: rec.normal,
                                material: rec.material,
                            },
                        ),
                    ),
                    Option::None => true,
                }
            }
        },
        Hitable::Rotated(t) => {
            let c = t.cos_theta as int;
            let s = t.sin_theta as int;
            let rotated = Ray {
                origin: rot_vec(r.origin, c, -s),
                direction: rot_vec(r.direction, c, -s),
                time: r.time,
            };
            !(vec_within(rotated.origin, B33 as int) && vec_within(
                rotated.direction,
                crate::math::B26 as int,
            )) ==> res is None
        },
        Hitable::Medium(m) => match res {
            Option::Some(rec) => {
                &&& rec.p == crate::ray::ray_at(r, rec.t as int)
                &&& *rec.material == *m.phase_function
                &&& rec.normal == (Vec3 { x: SCALE, y: 0i64, z: 0i64 })
                &&& rec.u == 0
                &&& rec.v == 0
            },
            Option::None => true,
        },
        Hitable::Block(b) => b.hitablelist.hitables@.len() == 0 ==> res is None,
        Hitable::List(l) => l.hitables@.len() == 0 ==> res is None,
        Hitable::Node(n) => !crate::aabb::aabb_hit_spec(n.bbox, r, t_min, t_max) ==> res
            is None,
    }
}

/// The list fold, member by member from index `i`: each member's outcome
/// `steps[i]` must be one its own query allows over the interval narrowed
/// by the prior best, a hit replaces the best, and the final best is the
/// result.
pub open spec fn list_outcome(
    l: crate::hitable_list::HitableList,
    steps: Seq<Option<HitRecord>>,
    i: int,
    prior: Option<HitRecord>,
    r: Ray,
    t_min: int,
    t_max: int,
    res: Option<HitRecord>,
) -> bool
    decreases l, l.hitables@.len() - i,
{
    if !(0 <= i < l.hitables@.len()) {
        res == prior
    } else {
        &&& 0 <= i < steps.len()
        &&& hit_ok(l.hitables@[i], r, t_min, cur_max(prior, t_max), steps[i])
        &&& list_outcome(l, steps, i + 1, merge_step(prior, steps[i]), r, t_min, t_max, res)
    }
}

/// A recorded chain of member outcomes and running bests yields the fold.
pub proof fn lemma_list_outcome_chain(
    l: crate::hitable_list::HitableList,
    steps: Seq<Option<HitRecord>>,
    priors: Seq<Option<HitRecord>>,
    k: int,
    r: Ray,
    t_min: int,
    t_max: int,
)
    requires
        steps.len() == l.hitables@.len(),
        priors.len() == l.hitables@.len() + 1,
        0 <= k <= l.hitables@.len(),
        forall|j: int|
            k <= j < l.hitables@.len() ==> hit_ok(
                #[trigger] l.hitables@[j],
                r,
                t_min,
                cur_max(priors[j], t_max),
                steps[j],
            ),
        forall|j: int|
            k <= j < l.hitables@.len() ==> priors[j + 1] == merge_step(
                priors[j],
                #[trigger] steps[j],
            ),
    ensures
        list_outcome(
            l,
            steps,
            k,
            priors[k],
            r,
            t_min,
            t_max,
            priors[l.hitables@.len() as int],
        ),
    decreases l.hitables@.len() - k,
{
    if k < l.hitables@.len() {
        lemma_list_outcome_chain(l, steps, priors, k + 1, r, t_min, t_max);
    }
}

/// The unique outcome of a deterministic object's query, as a function:
/// `Some(outcome)` when the object contains no participating medium (whose
/// draws make two queries disagree), `None` when one does. Wrappers map
/// the child's outcome through their transforms and range guards; a list
/// folds its members keeping the nearest accepted hit; a node gates on its
/// box and keeps the closer child outcome.
pub open spec fn det_hit(h: Hitable, r: Ray, t_min: int, t_max: int) -> Option<
    Option<HitRecord>,
>
    decreases h,
{
    match h {
        Hitable::Sphere(s) => Option::Some(
            crate::sphere::sphere_outcome(s.center, s.radius as int, s.material, r, t_min, t_max),
        ),
        Hitable::MovingSphere(m) => Option::Some(
            crate::sphere::sphere_outcome(
                crate::sphere::lerp_center(m, r.time as int),
                m.radius as int,
                m.material,
                r,
                t_min,
                t_max,
            ),
        ),
        Hitable::Rect(rc) => Option::Some(crate::rectangle::rect_outcome(rc, r, t_min, t_max)),
        Hitable::Flip(f) => match det_hit(*f.hitable, r, t_min, t_max) {
            Option::Some(o) => Option::Some(flip_res(o)),
            Option::None => Option::None,
        },
        Hitable::Translated(t) => {
            let moved = Ray {
                origin: unshift_vec(r.origin, t.offset),
                direction: r.direction,
                time: r.time,
            };
            if !vec_within(moved.origin, B33 as int) {
                Option::Some(Option::None)
            } else {
                match det_hit(*t.hitable, moved, t_min, t_max) {
                    Option::Some(o) => Option::Some(
                        match o {
                            Option::Some(rec) => {
                                let p = shift_vec(rec.p, t.offset);
                                if vec_within(p, crate::math::B57 as int) {
                                    Option::Some(
                                        HitRecord {
                                            t: rec.t,
                                            u: rec.u,
                                            v: rec.v,
                                            p,
                                            normal: rec.normal,
                                            material: rec.material,
                                        },
                                    )
                                } else {
                                    Option::None
                                }
                            },
                            Option::None => Option::None,
                        },
                    ),
                    Option::None => Option::None,
                }
            }
        },
        Hitable::Rotated(t) => {
            let c = t.cos_theta as int;
            let s = t.sin_theta as int;
            let rotated = Ray {
                origin: rot_vec(r.origin, c, -s),
                direction: rot_vec(r.direction, c, -s),
                time: r.time,
            };
            if !(vec_within(rotated.origin, B33 as int) && vec_within(
                rotated.direction,
                crate::math::B26 as int,
            )) {
                Option::Some(Option::None)
            } else {
                match det_hit(*t.hitable, rotated, t_min, t_max) {
                    Option::Some(o) => Option::Some(
                        match o {
                            Option::Some(rec) => {
                                let p = rot_vec(rec.p, c, s);
                                let normal = rot_vec(rec.normal, c, s);
                                if vec_within(p, crate::math::B57 as int) && vec_within(
                                    normal,
                                    4 * SCALE as int,
                                ) {
                                    Option::Some(
                                        HitRecord {
                                            t: rec.t,
                                            u: rec.u,
                                            v: rec.v,
                                            p,
                                            normal,
                                            material: rec.material,
                                        },
                                    )
                                } else {
                                    Option::None
                                }
                            },
                            Option::None => Option::None,
                        },
                    ),
                    Option::None => Option::None,
                }
            }
        },
        Hitable::Medium(_) => Option::None,
        Hitable::Block(b) => det_fold(b.hitablelist, 0, Option::None, r, t_min, t_max),
        Hitable::List(l) => det_fold(l, 0, Option::None, r, t_min, t_max),
        Hitable::Node(n) => {
            if !crate::aabb::aabb_hit_spec(n.bbox, r, t_min, t_max) {
                Option::Some(Option::None)
            } else {
                match (det_hit(*n.left, r, t_min, t_max), det_hit(*n.right, r, t_min, t_max)) {
                    (Option::Some(lo), Option::Some(ro)) => Option::Some(closer_spec(lo, ro)),
                    _ => Option::None,
                }
            }
        },
    }
}

/// The deterministic list fold from member `i`, defined only when every
/// remaining member is deterministic.
pub open spec fn det_fold(
    l: crate::hitable_list::HitableList,
    i: int,
    prior: Option<HitRecord>,
    r: Ray,
    t_min: int,
    t_max: int,
) -> Option<Option<HitRecord>>
    decreases l, l.hitables@.len() - i,
{
    if !(0 <= i < l.hitables@.len()) {
        Option::Some(prior)
    } else {
        match det_hit(l.hitables@[i], r, t_min, cur_max(prior, t_max)) {
            Option::Some(step) => det_fold(l, i + 1, merge_step(prior, step), r, t_min, t_max),
            Option::None => Option::None,
        }
    }
}

/// Bounds under which a query ray keeps all slab and quadratic arithmetic
/// exact.
pub open spec fn ray_wf(r: Ray, t_min: int, t_max: int) -> bool {
    &&& vec_within(r.origin, B33 as int)
    &&& vec_within(r.direction, crate::math::B26 as int)
    &&& within(t_min, B38 as int)
    &&& within(t_max, B38 as int)
    &&& within(r.time as int, B38 as int)
}

/// Of two optional hits, the one with the smaller parameter; ties go left.
pub open spec fn closer_spec(a: Option<HitRecord>, b: Option<HitRecord>) -> Option<HitRecord> {
    match a {
        Option::Some(ra) => match b {
            Option::Some(rb) => if ra.t <= rb.t {
                Option::Some(ra)
            } else {
                Option::Some(rb)
            },
            Option::None => Option::Some(ra),
        },
        Option::None => b,
    }
}

/// Merge two child intersection results, keeping the nearer hit.
pub fn closer(a: Option<HitRecord>, b: Option<HitRecord>) -> (r: Option<HitRecord>)
    ensures
        r == closer_spec(a, b),
{
    match a {
        Option::Some(ra) => match b {
            Option::Some(rb) => if ra.t <= rb.t {
                Option::Some(ra)
            } else {
                Option::Some(rb)
            },
            Option::None => Option::Some(ra),
        },
        Option::None => b,
    }
}

impl Hitable {
    /// Intersect a ray with this object over the open interval
    /// `(t_min, t_max)`. Every returned record is well formed; the
    /// deterministic shapes additionally pin the record exactly through
    /// their own contracts (see the shape modules).
    pub fn hit(&self, r: &Ray, t_min: i64, t_max: i64) -> (res: Option<HitRecord>)
        requires
            hitable_wf(*self),
            ray_wf(*r, t_min as int, t_max as int),
        ensures
            res matches Option::Some(rec) ==> rec_wf(rec, t_min as int, t_max as int),
            hit_ok(*self, *r, t_min as int, t_max as int, res),
            det_hit(*self, *r, t_min as int, t_max as int) matches Option::Some(out) ==> res
                == out,
            self matches Hitable::List(l) && l.hitables@.len() == 0 ==> res is None,
            self matches Hitable::Sphere(s) ==> crate::sphere::sphere_hit_ok(
                s.center,
                s.radius as int,
                *s.material,
                *r,
                t_min as int,
                t_max as int,
                res,
            ),
            self matches Hitable::MovingSphere(m) ==> crate::sphere::sphere_hit_ok(
                crate::sphere::lerp_center(*m, r.time as int),
                m.radius as int,
                *m.material,
                *r,
                t_min as int,
                t_max as int,
                res,
            ),
            self matches Hitable::Rect(rc) ==> crate::rectangle::rect_hit_ok(
                *rc,
                *r,
                t_min as int,
                t_max as int,
                res,
            ),
        decreases *self,
    {
        match self {
            Hitable::Sphere(s) => s.hit(r, t_min, t_max),
            Hitable::MovingSphere(s) => s.hit(r, t_min, t_max),
            Hitable::Rect(rc) => rc.hit(r, t_min, t_max),
            Hitable::Flip(f) => {
                match f.hitable.hit(r, t_min, t_max) {
                    Option::Some(rec) => {
                        let ghost inner = rec;
                        let flipped = HitRecord { normal: rec.normal.neg(), ..rec };
                        proof {
                            assert(flip_rec(flipped) == inner);
                            assert(flipped == flip_rec(inner));
                        }
                        Option::Some(flipped)
                    },
                    Option::None => Option::None,
                }
            },
            Hitable::Translated(t) => t.hit(r, t_min, t_max),
            Hitable::Rotated(t) => t.hit(r, t_min, t_max),
            Hitable::Medium(m) => m.hit(r, t_min, t_max),
            Hitable::Block(b) => b.hitablelist.hit(r, t_min, t_max),
            Hitable::List(l) => l.hit(r, t_min, t_max),
            Hitable::Node(n) => n.hit(r, t_min, t_max),
        }
    }

    /// The object's bounding box over a shutter interval, when it has one.
    pub fn bounding_box(&self, t0: i64, t1: i64) -> (res: Option<AABB>)
        requires
            hitable_wf(*self),
            within(t0 as int, B38 as int),
            within(t1 as int, B38 as int),
        ensures
            res == bbox_spec(*self, t0 as int, t1 as int),
            res matches Option::Some(b) ==> crate::aabb::hit_box_wf(b),
        decreases *self,
    {
        match self {
            Hitable::Sphere(s) => s.bounding_box(t0, t1),
            Hitable::MovingSphere(s) => s.bounding_box(t0, t1),
            Hitable::Rect(rc) => rc.bounding_box(t0, t1),
            Hitable::Flip(f) => f.hitable.bounding_box(t0, t1),
            Hitable::Translated(t) => t.bounding_box(t0, t1),
            Hitable::Rotated(t) => t.bounding_box(t0, t1),
            Hitable::Medium(m) => m.boundary.bounding_box(t0, t1),
            Hitable::Block(b) => Option::Some(AABB::new(b.pmin, b.pmax)),
            Hitable::List(l) => l.bounding_box(t0, t1),
            Hitable::Node(n) => Option::Some(n.bbox),
        }
    }
}

} // verus!
