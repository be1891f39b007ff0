//! Fixed-point stand-ins for the transcendental functions the renderer
//! needs. Exact real trigonometry has no place in integer code, so each
//! function here is a clamped rational approximation; its contract pins the
//! computed value exactly (as a mirror of the arithmetic) together with the
//! range facts callers rely on.

use vstd::prelude::*;

use crate::math::{div0, div_i128, within, B39, SCALE};

verus! {

/// `pi * SCALE`, rounded.
pub const PI_FP: i64 = 205887;

/// `2 * pi * SCALE`, rounded.
pub const TWO_PI_FP: i64 = 411774;

/// `(pi / 2) * SCALE`, rounded.
pub const HALF_PI_FP: i64 = 102944;

/// `ln(2) * SCALE`, rounded.
pub const LN2_FP: i64 = 45426;

/// Remainder into `[0, TWO_PI_FP)`, reducing an angle to one period.
pub open spec fn angle_mod(x: int) -> int {
    let a = if x >= 0 {
        x
    } else {
        -x
    };
    let mm = a % (TWO_PI_FP as int);
    if x >= 0 {
        mm
    } else if mm == 0 {
        0
    } else {
        TWO_PI_FP as int - mm
    }
}

/// The rational sine approximation on `[0, PI_FP)`:
/// `16 t (pi - t) / (5 pi^2 - 4 t (pi - t))`, at fixed-point scale.
pub open spec fn half_sine(t: int) -> int {
    let a = t * (PI_FP as int - t);
    div0(16 * a * SCALE as int, 5 * PI_FP as int * PI_FP as int - 4 * a)
}

/// Fixed-point sine: reduce to one period, use `half_sine` on each half.
pub open spec fn sin_spec(x: int) -> int {
    let m = angle_mod(x);
    if m < PI_FP as int {
        half_sine(m)
    } else {
        -half_sine(m - PI_FP as int)
    }
}

proof fn lemma_half_sine_bounds(t: int)
    requires
        0 <= t < PI_FP as int,
    ensures
        0 <= half_sine(t) <= SCALE as int,
        0 <= t * (PI_FP as int - t),
        4 * (t * (PI_FP as int - t)) <= PI_FP as int * PI_FP as int,
        5 * PI_FP as int * PI_FP as int - 4 * (t * (PI_FP as int - t)) >= 1,
{
    let p = PI_FP as int;
    let s = SCALE as int;
    let a = t * (p - t);
    let num = 16 * a * s;
    let den = 5 * p * p - 4 * a;
    assert(0 <= a && 4 * a <= p * p) by (nonlinear_arith)
        requires
            0 <= t < p,
            a == t * (p - t),
    ;
    assert(num >= 0 && num <= s * den && den >= 1) by (nonlinear_arith)
        requires
            num == 16 * a * s,
            den == 5 * p * p - 4 * a,
            0 <= a,
            4 * a <= p * p,
            s == SCALE as int,
            p == PI_FP as int,
    ;
    vstd::arithmetic::div_mod::lemma_div_is_ordered(num, s * den, den);
    vstd::arithmetic::div_mod::lemma_div_by_multiple(s, den);
    vstd::arithmetic::div_mod::lemma_div_pos_is_pos(num, den);
    assert(half_sine(t) == num / den);
}

/// Fixed-point sine of a fixed-point radian angle, clamped by construction
/// to `[-SCALE, SCALE]`.
pub fn sin_fp(x: i64) -> (r: i64)
    requires
        within(x as int, 0x2000_0000_0000_0000),
    ensures
        r == sin_spec(x as int),
        within(r as int, SCALE as int),
{
    let a: u64 = if x >= 0 {
        x as u64
    } else {
        (-x) as u64
    };
    let mm: u64 = a % (TWO_PI_FP as u64);
    proof {
        vstd::arithmetic::div_mod::lemma_mod_division_less_than_divisor(
            a as int,
            TWO_PI_FP as int,
        );
    }
    let m: i64 = if x >= 0 {
        mm as i64
    } else if mm == 0 {
        0
    } else {
        TWO_PI_FP - (mm as i64)
    };
    assert(m == angle_mod(x as int));
    assert(0 <= m < TWO_PI_FP);
    let t: i64 = if m < PI_FP {
        m
    } else {
        m - PI_FP
    };
    proof {
        lemma_half_sine_bounds(t as int);
    }
    let tt: i128 = t as i128;
    let p: i128 = PI_FP as i128;
    let a: i128 = tt * (p - tt);
    let num: i128 = 16 * a * (SCALE as i128);
    let den: i128 = 5 * p * p - 4 * a;
    let s: i64 = div_i128(num, den) as i64;
    if m < PI_FP {
        s
    } else {
        -s
    }
}

/// Fixed-point cosine, as the sine shifted a quarter period.
pub open spec fn cos_spec(x: int) -> int {
    sin_spec(x + HALF_PI_FP as int)
}

pub fn cos_fp(x: i64) -> (r: i64)
    requires
        within(x as int, (B39 - HALF_PI_FP) as int),
    ensures
        r == cos_spec(x as int),
        within(r as int, SCALE as int),
{
    sin_fp(x + HALF_PI_FP)
}

/// Fixed-point tangent with the cosine floored at one fixed-point step, so
/// the quotient is always defined; near an odd quarter turn the result
/// saturates instead of diverging.
pub open spec fn tan_spec(x: int) -> int {
    let c = cos_spec(x);
    let cc = if c >= 1 {
        c
    } else {
        1
    };
    div0(sin_spec(x) * SCALE as int, cc)
}

pub fn tan_fp(x: i64) -> (r: i64)
    requires
        within(x as int, (B39 - HALF_PI_FP) as int),
    ensures
        r == tan_spec(x as int),
        within(r as int, SCALE as int * SCALE as int),
{
    let s: i64 = sin_fp(x);
    let c0: i64 = cos_fp(x);
    let c: i64 = if c0 >= 1 {
        c0
    } else {
        1
    };
    proof {
        crate::math::lemma_mul_within(s as int, SCALE as int, SCALE as int, SCALE as int);
        crate::math::lemma_div0_within(
            s as int * SCALE as int,
            c as int,
            SCALE as int * SCALE as int,
        );
    }
    div_i128((s as i128) * (SCALE as i128), c as i128) as i64
}

/// The mantissa normalization: double until at least half a unit, keeping
/// the count of doublings.
pub open spec fn ln_norm(m: int, k: int) -> (int, int)
    decreases 15 - k,
{
    if 0 <= k < 15 && m < SCALE as int / 2 {
        ln_norm(2 * m, k + 1)
    } else {
        (m, k)
    }
}

/// `-ln(u / SCALE)`: the doubling count times `ln 2`, plus a two-term
/// series on the normalized mantissa.
pub open spec fn neg_ln_spec(u: int) -> int {
    let (m, k) = ln_norm(u, 0);
    let eps = SCALE as int - m;
    k * LN2_FP as int + eps + div0(eps * eps, 2 * SCALE as int)
}

/// `-ln(u / SCALE)` for `u` in `(0, SCALE)`: normalize the mantissa into
/// `[SCALE/2, SCALE)` counting doublings, then a two-term series.
pub fn neg_ln_fp(u: i64) -> (r: i64)
    requires
        1 <= u < SCALE,
    ensures
        r == neg_ln_spec(u as int),
        0 <= r < 1000000,
{
    let mut m: i64 = u;
    let mut k: i64 = 0;
    while m < SCALE / 2 && k < 15
        invariant
            1 <= m < SCALE,
            0 <= k <= 15,
            ln_norm(m as int, k as int) == ln_norm(u as int, 0),
        decreases SCALE - m,
    {
        m = m * 2;
        k = k + 1;
    }
    proof {
        assert(ln_norm(m as int, k as int) == (m as int, k as int));
    }
    let eps: i64 = SCALE - m;
    proof {
        crate::math::lemma_mul_within(eps as int, eps as int, SCALE as int, SCALE as int);
        crate::math::lemma_div0_within(
            eps as int * eps as int,
            2 * SCALE as int,
            SCALE as int * SCALE as int,
        );
        assert(eps as int * eps as int >= 0) by (nonlinear_arith);
    }
    let q: i64 = div_i128((eps as i128) * (eps as i128), 2 * (SCALE as i128)) as i64;
    k * LN2_FP + eps + q
}

} // verus!
