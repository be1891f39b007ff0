//! Axis-aligned bounding boxes: the slab intersection test, done exactly
//! over rational ray parameters, and the union of two boxes.
//!
//! A slab entry/exit parameter `(min_a - origin_a) / direction_a` is kept as
//! a fraction with positive denominator instead of being divided out, so the
//! interval narrowing is exact: a zero direction component constrains
//! nothing when the origin lies inside the slab and rejects the ray when it
//! lies strictly outside, which is the signed-infinity behavior the slab
//! method relies on.

use vstd::prelude::*;

use crate::math::{within, B39, SCALE};
use crate::ray::Ray;
use crate::vec3::{vec_within, Vec3};

verus! {

#[derive(Clone, Copy, PartialEq, Eq, Structural, Debug)]
pub struct AABB {
    pub min: Vec3,
    pub max: Vec3,
}

/// `min <= max` componentwise; degenerate (zero-thickness) boxes are legal.
pub open spec fn aabb_wf(b: AABB) -> bool {
    b.min.x <= b.max.x && b.min.y <= b.max.y && b.min.z <= b.max.z
}

/// The running `[lo, hi]` parameter interval, as fractions `ln/ld`, `hn/hd`
/// with positive denominators.
#[derive(Clone, Copy)]
pub struct Slab {
    pub ln: i128,
    pub ld: i128,
    pub hn: i128,
    pub hd: i128,
}

pub open spec fn slab_wf(s: Slab) -> bool {
    &&& 1 <= s.ld <= B39 as int
    &&& 1 <= s.hd <= B39 as int
    &&& within(s.ln as int, 4 * B39 as int)
    &&& within(s.hn as int, 4 * B39 as int)
}

/// `a/b < c/d` for positive denominators.
pub open spec fn frac_lt(an: int, ad: int, bn: int, bd: int) -> bool {
    an * bd < bn * ad
}

/// One axis of the slab test: narrow the interval by the axis' entry and
/// exit parameters, or decide the axis alone rejects the ray.
pub open spec fn narrow_spec(s: Slab, minc: int, maxc: int, oc: int, dc: int) -> (Slab, bool) {
    if dc == 0 {
        (s, minc <= oc <= maxc)
    } else {
        let en = if dc > 0 {
            minc - oc
        } else {
            oc - maxc
        };
        let xn = if dc > 0 {
            maxc - oc
        } else {
            oc - minc
        };
        let d = if dc > 0 {
            dc
        } else {
            -dc
        };
        let (ln1, ld1) = if frac_lt(s.ln as int, s.ld as int, en, d) {
            (en, d)
        } else {
            (s.ln as int, s.ld as int)
        };
        let (hn1, hd1) = if frac_lt(xn, d, s.hn as int, s.hd as int) {
            (xn, d)
        } else {
            (s.hn as int, s.hd as int)
        };
        (Slab { ln: ln1 as i128, ld: ld1 as i128, hn: hn1 as i128, hd: hd1 as i128 }, true)
    }
}

/// Whether the slab test accepts: all three axes keep a non-empty open
/// interval inside `(t_min, t_max)`.
pub open spec fn aabb_hit_spec(b: AABB, r: Ray, t_min: int, t_max: int) -> bool {
    let s0 = Slab { ln: t_min as i128, ld: SCALE as i128, hn: t_max as i128, hd: SCALE as i128 };
    let (s1, ok1) = narrow_spec(s0, b.min.x as int, b.max.x as int, r.origin.x as int, r.direction.x as int);
    let (s2, ok2) = narrow_spec(s1, b.min.y as int, b.max.y as int, r.origin.y as int, r.direction.y as int);
    let (s3, ok3) = narrow_spec(s2, b.min.z as int, b.max.z as int, r.origin.z as int, r.direction.z as int);
    ok1 && ok2 && ok3 && frac_lt(s3.ln as int, s3.ld as int, s3.hn as int, s3.hd as int)
}

/// Bounds under which the slab arithmetic stays exact in `i128`.
pub open spec fn hit_args_wf(b: AABB, r: Ray, t_min: int, t_max: int) -> bool {
    &&& vec_within(b.min, B39 as int)
    &&& vec_within(b.max, B39 as int)
    &&& vec_within(r.origin, B39 as int)
    &&& vec_within(r.direction, B39 as int)
    &&& within(t_min, B39 as int)
    &&& within(t_max, B39 as int)
}

fn frac_lt_exec(an: i128, ad: i128, bn: i128, bd: i128) -> (r: bool)
    requires
        within(an as int, 4 * B39 as int),
        within(bn as int, 4 * B39 as int),
        1 <= ad <= B39 as int,
        1 <= bd <= B39 as int,
    ensures
        r == frac_lt(an as int, ad as int, bn as int, bd as int),
{
    proof {
        crate::math::lemma_mul_within(an as int, bd as int, 4 * B39 as int, B39 as int);
        crate::math::lemma_mul_within(bn as int, ad as int, 4 * B39 as int, B39 as int);
    }
    an * bd < bn * ad
}

fn narrow(s: Slab, minc: i64, maxc: i64, oc: i64, dc: i64) -> (r: (Slab, bool))
    requires
        slab_wf(s),
        within(minc as int, B39 as int),
        within(maxc as int, B39 as int),
        within(oc as int, B39 as int),
        within(dc as int, B39 as int),
    ensures
        r == narrow_spec(s, minc as int, maxc as int, oc as int, dc as int),
        slab_wf(r.0),
{
    if dc == 0 {
        (s, minc <= oc && oc <= maxc)
    } else {
        let en: i128 = if dc > 0 {
            (minc as i128) - (oc as i128)
        } else {
            (oc as i128) - (maxc as i128)
        };
        let xn: i128 = if dc > 0 {
            (maxc as i128) - (oc as i128)
        } else {
            (oc as i128) - (minc as i128)
        };
        let d: i128 = if dc > 0 {
            dc as i128
        } else {
            -(dc as i128)
        };
        let (ln1, ld1) = if frac_lt_exec(s.ln, s.ld, en, d) {
            (en, d)
        } else {
            (s.ln, s.ld)
        };
        let (hn1, hd1) = if frac_lt_exec(xn, d, s.hn, s.hd) {
            (xn, d)
        } else {
            (s.hn, s.hd)
        };
        (Slab { ln: ln1, ld: ld1, hn: hn1, hd: hd1 }, true)
    }
}

/// Boxes whose corners stay within the wrapper-transform bound, so the
/// slab test's arithmetic stays exact for any well-formed query ray.
pub open spec fn hit_box_wf(b: AABB) -> bool {
    vec_within(b.min, 8 * crate::math::B33 as int) && vec_within(b.max, 8 * crate::math::B33 as int)
}

impl AABB {
    pub fn new(min: Vec3, max: Vec3) -> (r: AABB)
        ensures
            r == (AABB { min, max }),
    {
        AABB { min, max }
    }

    /// The slab test: true exactly when the open parameter interval
    /// `(t_min, t_max)`, narrowed by each axis' entry and exit fractions,
    /// stays non-empty.
    pub fn hit(&self, r: &Ray, t_min: i64, t_max: i64) -> (res: bool)
        requires
            hit_args_wf(*self, *r, t_min as int, t_max as int),
        ensures
            res == aabb_hit_spec(*self, *r, t_min as int, t_max as int),
    {
        let s0 = Slab {
            ln: t_min as i128,
            ld: SCALE as i128,
            hn: t_max as i128,
            hd: SCALE as i128,
        };
        let (s1, ok1) = narrow(s0, self.min.x, self.max.x, r.origin.x, r.direction.x);
        if !ok1 {
            return false;
        }
        let (s2, ok2) = narrow(s1, self.min.y, self.max.y, r.origin.y, r.direction.y);
        if !ok2 {
            return false;
        }
        let (s3, ok3) = narrow(s2, self.min.z, self.max.z, r.origin.z, r.direction.z);
        if !ok3 {
            return false;
        }
        frac_lt_exec(s3.ln, s3.ld, s3.hn, s3.hd)
    }
}

fn fmin(a: i64, b: i64) -> (r: i64)
    ensures
        r == if a < b { a } else { b },
{
    if a < b {
        a
    } else {
        b
    }
}

fn fmax(a: i64, b: i64) -> (r: i64)
    ensures
        r == if a > b { a } else { b },
{
    if a > b {
        a
    } else {
        b
    }
}

pub open spec fn smin(a: int, b: int) -> int {
    if a < b {
        a
    } else {
        b
    }
}

pub open spec fn smax(a: int, b: int) -> int {
    if a > b {
        a
    } else {
        b
    }
}

/// The componentwise union of two boxes.
pub open spec fn surrounding_box_spec(a: AABB, b: AABB) -> AABB {
    AABB {
        min: Vec3 {
            x: smin(a.min.x as int, b.min.x as int) as i64,
            y: smin(a.min.y as int, b.min.y as int) as i64,
            z: smin(a.min.z as int, b.min.z as int) as i64,
        },
        max: Vec3 {
            x: smax(a.max.x as int, b.max.x as int) as i64,
            y: smax(a.max.y as int, b.max.y as int) as i64,
            z: smax(a.max.z as int, b.max.z as int) as i64,
        },
    }
}

/// Componentwise min of the mins and max of the maxes.
pub fn surrounding_box(bbox0: AABB, bbox1: AABB) -> (r: AABB)
    ensures
        r == surrounding_box_spec(bbox0, bbox1),
        aabb_wf(bbox0) && aabb_wf(bbox1) ==> aabb_wf(r),
{
    let small = Vec3::new(
        fmin(bbox0.min.x, bbox1.min.x),
        fmin(bbox0.min.y, bbox1.min.y),
        fmin(bbox0.min.z, bbox1.min.z),
    );
    let big = Vec3::new(
        fmax(bbox0.max.x, bbox1.max.x),
        fmax(bbox0.max.y, bbox1.max.y),
        fmax(bbox0.max.z, bbox1.max.z),
    );
    AABB::new(small, big)
}

/// Strict containment of the rational parameter `tn / td` in one axis'
/// slab: vacuous thickness constraints for a parallel direction, strict
/// entry/exit inequalities otherwise.
pub open spec fn axis_strict(minc: int, maxc: int, oc: int, dc: int, tn: int, td: int) -> bool {
    if dc == 0 {
        minc <= oc <= maxc
    } else if dc > 0 {
        (minc - oc) * td < tn * dc && tn * dc < (maxc - oc) * td
    } else {
        (oc - maxc) * td < tn * (-dc) && tn * (-dc) < (oc - minc) * td
    }
}

/// Fraction comparison is transitive over positive denominators.
proof fn lemma_frac_lt_trans(an: int, ad: int, bn: int, bd: int, cn: int, cd: int)
    by (nonlinear_arith)
    requires
        ad >= 1,
        bd >= 1,
        cd >= 1,
        frac_lt(an, ad, bn, bd),
        frac_lt(bn, bd, cn, cd),
    ensures
        frac_lt(an, ad, cn, cd),
{
}

/// Narrowing by an axis keeps any parameter that satisfies the axis'
/// strict containment and already lies strictly inside the interval.
proof fn lemma_narrow_keeps_witness(
    s: Slab,
    minc: int,
    maxc: int,
    oc: int,
    dc: int,
    tn: int,
    td: int,
)
    requires
        td >= 1,
        s.ld >= 1,
        s.hd >= 1,
        within(minc, B39 as int),
        within(maxc, B39 as int),
        within(oc, B39 as int),
        within(dc, B39 as int),
        frac_lt(s.ln as int, s.ld as int, tn, td),
        frac_lt(tn, td, s.hn as int, s.hd as int),
        axis_strict(minc, maxc, oc, dc, tn, td),
    ensures
        narrow_spec(s, minc, maxc, oc, dc).1,
        ({
            let s1 = narrow_spec(s, minc, maxc, oc, dc).0;
            &&& s1.ld >= 1
            &&& s1.hd >= 1
            &&& frac_lt(s1.ln as int, s1.ld as int, tn, td)
            &&& frac_lt(tn, td, s1.hn as int, s1.hd as int)
        }),
{
    if dc != 0 {
        let en = if dc > 0 {
            minc - oc
        } else {
            oc - maxc
        };
        let xn = if dc > 0 {
            maxc - oc
        } else {
            oc - minc
        };
        let d = if dc > 0 {
            dc
        } else {
            -dc
        };
        assert(frac_lt(en, d, tn, td));
        assert(frac_lt(tn, td, xn, d));
        let s1 = narrow_spec(s, minc, maxc, oc, dc).0;
        if frac_lt(s.ln as int, s.ld as int, en, d) {
            assert(s1.ln as int == en && s1.ld as int == d);
        } else {
            assert(s1.ln == s.ln && s1.ld == s.ld);
        }
        if frac_lt(xn, d, s.hn as int, s.hd as int) {
            assert(s1.hn as int == xn && s1.hd as int == d);
        } else {
            assert(s1.hn == s.hn && s1.hd == s.hd);
        }
    }
}

/// Non-strict fraction comparison chains with a strict one.
proof fn lemma_frac_le_lt_trans(an: int, ad: int, bn: int, bd: int, cn: int, cd: int)
    by (nonlinear_arith)
    requires
        ad >= 1,
        bd >= 1,
        cd >= 1,
        !frac_lt(bn, bd, an, ad),
        frac_lt(bn, bd, cn, cd),
    ensures
        frac_lt(an, ad, cn, cd),
{
}

proof fn lemma_frac_lt_le_trans(an: int, ad: int, bn: int, bd: int, cn: int, cd: int)
    by (nonlinear_arith)
    requires
        ad >= 1,
        bd >= 1,
        cd >= 1,
        frac_lt(an, ad, bn, bd),
        !frac_lt(cn, cd, bn, bd),
    ensures
        frac_lt(an, ad, cn, cd),
{
}

/// A parameter strictly inside the narrowed interval was strictly inside
/// the wider one and strictly inside the axis' slab.
proof fn lemma_narrow_reflects_witness(
    s: Slab,
    minc: int,
    maxc: int,
    oc: int,
    dc: int,
    tn: int,
    td: int,
)
    requires
        td >= 1,
        s.ld >= 1,
        s.hd >= 1,
        within(minc, B39 as int),
        within(maxc, B39 as int),
        within(oc, B39 as int),
        within(dc, B39 as int),
        narrow_spec(s, minc, maxc, oc, dc).1,
        frac_lt(
            narrow_spec(s, minc, maxc, oc, dc).0.ln as int,
            narrow_spec(s, minc, maxc, oc, dc).0.ld as int,
            tn,
            td,
        ),
        frac_lt(
            tn,
            td,
            narrow_spec(s, minc, maxc, oc, dc).0.hn as int,
            narrow_spec(s, minc, maxc, oc, dc).0.hd as int,
        ),
    ensures
        frac_lt(s.ln as int, s.ld as int, tn, td),
        frac_lt(tn, td, s.hn as int, s.hd as int),
        axis_strict(minc, maxc, oc, dc, tn, td),
{
    if dc != 0 {
        let en = if dc > 0 {
            minc - oc
        } else {
            oc - maxc
        };
        let xn = if dc > 0 {
            maxc - oc
        } else {
            oc - minc
        };
        let d = if dc > 0 {
            dc
        } else {
            -dc
        };
        let s1 = narrow_spec(s, minc, maxc, oc, dc).0;
        if frac_lt(s.ln as int, s.ld as int, en, d) {
            assert(s1.ln as int == en && s1.ld as int == d);
            lemma_frac_lt_trans(s.ln as int, s.ld as int, en, d, tn, td);
        } else {
            assert(s1.ln == s.ln && s1.ld == s.ld);
            lemma_frac_le_lt_trans(en, d, s.ln as int, s.ld as int, tn, td);
        }
        if frac_lt(xn, d, s.hn as int, s.hd as int) {
            assert(s1.hn as int == xn && s1.hd as int == d);
            lemma_frac_lt_trans(tn, td, xn, d, s.hn as int, s.hd as int);
        } else {
            assert(s1.hn == s.hn && s1.hd == s.hd);
            lemma_frac_lt_le_trans(tn, td, s.hn as int, s.hd as int, xn, d);
        }
        assert(frac_lt(en, d, tn, td));
        assert(frac_lt(tn, td, xn, d));
    }
}

/// Completeness of the slab test: an accepted ray admits a rational
/// parameter strictly inside `(t_min, t_max)` and strictly inside every
/// axis' slab.
pub proof fn lemma_slab_hit_has_witness(b: AABB, r: Ray, t_min: int, t_max: int)
    requires
        within(t_min, B39 as int),
        within(t_max, B39 as int),
        vec_within(b.min, B39 as int),
        vec_within(b.max, B39 as int),
        vec_within(r.origin, B39 as int),
        vec_within(r.direction, B39 as int),
        aabb_hit_spec(b, r, t_min, t_max),
    ensures
        exists|tn: int, td: int|
            #![auto]
            td >= 1 && frac_lt(t_min, SCALE as int, tn, td) && frac_lt(tn, td, t_max, SCALE as int)
                && axis_strict(
                b.min.x as int,
                b.max.x as int,
                r.origin.x as int,
                r.direction.x as int,
                tn,
                td,
            ) && axis_strict(
                b.min.y as int,
                b.max.y as int,
                r.origin.y as int,
                r.direction.y as int,
                tn,
                td,
            ) && axis_strict(
                b.min.z as int,
                b.max.z as int,
                r.origin.z as int,
                r.direction.z as int,
                tn,
                td,
            ),
{
    let s0 = Slab { ln: t_min as i128, ld: SCALE as i128, hn: t_max as i128, hd: SCALE as i128 };
    let s1 = narrow_spec(
        s0,
        b.min.x as int,
        b.max.x as int,
        r.origin.x as int,
        r.direction.x as int,
    ).0;
    let s2 = narrow_spec(
        s1,
        b.min.y as int,
        b.max.y as int,
        r.origin.y as int,
        r.direction.y as int,
    ).0;
    let s3 = narrow_spec(
        s2,
        b.min.z as int,
        b.max.z as int,
        r.origin.z as int,
        r.direction.z as int,
    ).0;
    let tn = s3.ln as int * s3.hd as int + s3.hn as int * s3.ld as int;
    let td = 2 * s3.ld as int * s3.hd as int;
    assert(td >= 1 && frac_lt(s3.ln as int, s3.ld as int, tn, td) && frac_lt(
        tn,
        td,
        s3.hn as int,
        s3.hd as int,
    )) by (nonlinear_arith)
        requires
            s3.ld >= 1,
            s3.hd >= 1,
            frac_lt(s3.ln as int, s3.ld as int, s3.hn as int, s3.hd as int),
            tn == s3.ln as int * s3.hd as int + s3.hn as int * s3.ld as int,
            td == 2 * s3.ld as int * s3.hd as int,
    ;
    lemma_narrow_reflects_witness(
        s2,
        b.min.z as int,
        b.max.z as int,
        r.origin.z as int,
        r.direction.z as int,
        tn,
        td,
    );
    lemma_narrow_reflects_witness(
        s1,
        b.min.y as int,
        b.max.y as int,
        r.origin.y as int,
        r.direction.y as int,
        tn,
        td,
    );
    lemma_narrow_reflects_witness(
        s0,
        b.min.x as int,
        b.max.x as int,
        r.origin.x as int,
        r.direction.x as int,
        tn,
        td,
    );
}

/// Soundness of the slab test: when some rational parameter `tn / td`
/// lies strictly inside `(t_min, t_max)` and strictly inside every axis'
/// slab, the test accepts the ray.
pub proof fn lemma_slab_accepts_witness(
    b: AABB,
    r: Ray,
    t_min: int,
    t_max: int,
    tn: int,
    td: int,
)
    requires
        td >= 1,
        within(t_min, B39 as int),
        within(t_max, B39 as int),
        vec_within(b.min, B39 as int),
        vec_within(b.max, B39 as int),
        vec_within(r.origin, B39 as int),
        vec_within(r.direction, B39 as int),
        frac_lt(t_min, SCALE as int, tn, td),
        frac_lt(tn, td, t_max, SCALE as int),
        axis_strict(b.min.x as int, b.max.x as int, r.origin.x as int, r.direction.x as int, tn, td),
        axis_strict(b.min.y as int, b.max.y as int, r.origin.y as int, r.direction.y as int, tn, td),
        axis_strict(b.min.z as int, b.max.z as int, r.origin.z as int, r.direction.z as int, tn, td),
    ensures
        aabb_hit_spec(b, r, t_min, t_max),
{
    let s0 = Slab { ln: t_min as i128, ld: SCALE as i128, hn: t_max as i128, hd: SCALE as i128 };
    lemma_narrow_keeps_witness(
        s0,
        b.min.x as int,
        b.max.x as int,
        r.origin.x as int,
        r.direction.x as int,
        tn,
        td,
    );
    let s1 = narrow_spec(
        s0,
        b.min.x as int,
        b.max.x as int,
        r.origin.x as int,
        r.direction.x as int,
    ).0;
    lemma_narrow_keeps_witness(
        s1,
        b.min.y as int,
        b.max.y as int,
        r.origin.y as int,
        r.direction.y as int,
        tn,
        td,
    );
    let s2 = narrow_spec(
        s1,
        b.min.y as int,
        b.max.y as int,
        r.origin.y as int,
        r.direction.y as int,
    ).0;
    lemma_narrow_keeps_witness(
        s2,
        b.min.z as int,
        b.max.z as int,
        r.origin.z as int,
        r.direction.z as int,
        tn,
        td,
    );
    let s3 = narrow_spec(
        s2,
        b.min.z as int,
        b.max.z as int,
        r.origin.z as int,
        r.direction.z as int,
    ).0;
    lemma_frac_lt_trans(
        s3.ln as int,
        s3.ld as int,
        tn,
        td,
        s3.hn as int,
        s3.hd as int,
    );
}

/// The union of two boxes does not depend on their order.
pub proof fn lemma_surrounding_box_commutative(a: AABB, b: AABB)
    ensures
        surrounding_box_spec(a, b) == surrounding_box_spec(b, a),
{
}

/// The union of three boxes does not depend on grouping.
pub proof fn lemma_surrounding_box_associative(a: AABB, b: AABB, c: AABB)
    ensures
        surrounding_box_spec(surrounding_box_spec(a, b), c) == surrounding_box_spec(
            a,
            surrounding_box_spec(b, c),
        ),
{
}

/// Whether `inner` lies inside `outer` componentwise.
pub open spec fn aabb_contains(outer: AABB, inner: AABB) -> bool {
    &&& outer.min.x <= inner.min.x && inner.max.x <= outer.max.x
    &&& outer.min.y <= inner.min.y && inner.max.y <= outer.max.y
    &&& outer.min.z <= inner.min.z && inner.max.z <= outer.max.z
}

/// The union of two boxes contains both of them.
pub proof fn lemma_surrounding_box_contains(a: AABB, b: AABB)
    ensures
        aabb_contains(surrounding_box_spec(a, b), a),
        aabb_contains(surrounding_box_spec(a, b), b),
{
}

} // verus!
