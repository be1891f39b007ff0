//! Exact integer helpers for the fixed-point scalar used throughout the
//! library: every geometric coordinate is an `i64` holding `value * SCALE`.

use vstd::prelude::*;

verus! {

/// Number of fixed-point fractional steps per world unit.
pub const SCALE: i64 = 65536;

/// Truncating division (round toward zero), the rule every fixed-point
/// quotient in this library follows.
pub open spec fn div0(n: int, d: int) -> int {
    if n >= 0 {
        n / d
    } else {
        -((-n) / d)
    }
}

/// Magnitude bound, the shape every overflow argument in this crate uses.
pub open spec fn within(x: int, bound: int) -> bool {
    -bound <= x <= bound
}

pub proof fn lemma_mul_within(a: int, b: int, ab: int, bb: int)
    by (nonlinear_arith)
    requires
        within(a, ab),
        within(b, bb),
        0 <= ab,
        0 <= bb,
    ensures
        within(a * b, ab * bb),
        0 <= ab * bb,
{
}

/// Product bound for non-negative factors.
pub proof fn lemma_mul_le(a: int, b: int, ab: int, bb: int)
    by (nonlinear_arith)
    requires
        0 <= a <= ab,
        0 <= b <= bb,
    ensures
        0 <= a * b <= ab * bb,
{
}

pub proof fn lemma_div0_within(n: int, d: int, bound: int)
    requires
        d >= 1,
        within(n, bound),
        0 <= bound,
    ensures
        within(div0(n, d), bound),
        within(div0(n, d), bound / d),
        n >= 0 ==> 0 <= div0(n, d) <= n,
        n < 0 ==> n <= div0(n, d) <= 0,
{
    if n >= 0 {
        vstd::arithmetic::div_mod::lemma_div_is_ordered(n, bound, d);
        vstd::arithmetic::div_mod::lemma_div_nonincreasing(n, d);
        vstd::arithmetic::div_mod::lemma_div_pos_is_pos(n, d);
    } else {
        vstd::arithmetic::div_mod::lemma_div_is_ordered(-n, bound, d);
        vstd::arithmetic::div_mod::lemma_div_nonincreasing(-n, d);
        vstd::arithmetic::div_mod::lemma_div_pos_is_pos(-n, d);
    }
}

/// A packaged fixed-point product bound: if the bound product is a known
/// multiple of `SCALE`, the rescaled product stays within the quotient.
pub proof fn lemma_fp_bound(a: int, b: int, ab: int, bb: int, q: int)
    requires
        within(a, ab),
        within(b, bb),
        0 <= ab,
        0 <= bb,
        ab * bb == q * SCALE as int,
        0 <= q,
    ensures
        within(div0(a * b, SCALE as int), q),
{
    lemma_mul_within(a, b, ab, bb);
    lemma_div0_within(a * b, SCALE as int, q * SCALE as int);
    vstd::arithmetic::div_mod::lemma_div_by_multiple(q, SCALE as int);
}

/// Truncating division is monotone in the numerator (positive divisor).
pub proof fn lemma_div0_ordered(n1: int, n2: int, d: int)
    requires
        d >= 1,
        n1 <= n2,
    ensures
        div0(n1, d) <= div0(n2, d),
{
    if n1 >= 0 {
        vstd::arithmetic::div_mod::lemma_div_is_ordered(n1, n2, d);
    } else if n2 < 0 {
        vstd::arithmetic::div_mod::lemma_div_is_ordered(-n2, -n1, d);
    } else {
        vstd::arithmetic::div_mod::lemma_div_pos_is_pos(-n1, d);
        vstd::arithmetic::div_mod::lemma_div_pos_is_pos(n2, d);
    }
}

/// Truncating division of `i128` values, rounding toward zero.
pub fn div_i128(n: i128, d: i128) -> (r: i128)
    requires
        d != 0,
        n > i128::MIN,
        d > i128::MIN,
    ensures
        d > 0 ==> r == div0(n as int, d as int),
        d < 0 ==> r == div0(-(n as int), -(d as int)),
{
    let nn: u128 = if n >= 0 {
        n as u128
    } else {
        (-n) as u128
    };
    let dd: u128 = if d >= 0 {
        d as u128
    } else {
        (-d) as u128
    };
    let q: u128 = nn / dd;
    proof {
        vstd::arithmetic::div_mod::lemma_div_nonincreasing(nn as int, dd as int);
        vstd::arithmetic::div_mod::lemma_div_pos_is_pos(nn as int, dd as int);
    }
    if (n >= 0) == (d >= 0) {
        q as i128
    } else {
        -(q as i128)
    }
}

/// Fixed-point product: `(a * b) / SCALE`, rounded toward zero.
///
/// The bound `B39` keeps the scaled product inside `i64`.
pub const B39: i64 = 0x80_0000_0000;

/// Tighter bound for quantities that feed degree-two products kept at
/// fixed-point scale, such as cross products.
pub const B30: i64 = 0x4000_0000;

/// Bound for query-ray directions: small enough that the sphere quadratic
/// stays inside `i128`.
pub const B26: i64 = 0x400_0000;

/// Bound for query-ray origins and directions, wrapper transforms included.
pub const B33: i64 = 0x2_0000_0000;

/// Bound for ray parameters: the longest distance a query accepts.
pub const B38: i64 = 0x40_0000_0000;

/// Bound for points reached along a ray: scene coordinates plus the longest
/// accepted parameter times the direction.
pub const B57: i64 = 0x200_0000_0000_0000;

pub fn fp_mul(a: i64, b: i64) -> (r: i64)
    requires
        within(a as int, B39 as int),
        within(b as int, B39 as int),
    ensures
        r == div0(a as int * b as int, SCALE as int),
        within(r as int, 0x4000_0000_0000_0000),
{
    proof {
        lemma_mul_within(a as int, b as int, B39 as int, B39 as int);
        lemma_div0_within(a as int * b as int, SCALE as int, B39 as int * B39 as int);
    }
    let p: i128 = (a as i128) * (b as i128);
    let q: i128 = div_i128(p, SCALE as i128);
    q as i64
}

/// Floor of the square root, as a mathematical function.
pub open spec fn sqrt_floor(n: nat) -> nat
    decreases n,
{
    if n < 1 {
        0
    } else {
        let r = sqrt_floor((n - 1) as nat);
        if (r + 1) * (r + 1) <= n {
            r + 1
        } else {
            r
        }
    }
}

pub proof fn lemma_sqrt_floor_bounds(n: nat)
    ensures
        sqrt_floor(n) * sqrt_floor(n) <= n,
        n < (sqrt_floor(n) + 1) * (sqrt_floor(n) + 1),
    decreases n,
{
    if n < 1 {
        assert(sqrt_floor(n) == 0);
        assert(n < (0 + 1) * (0 + 1)) by (nonlinear_arith)
            requires
                n < 1,
        ;
    } else {
        lemma_sqrt_floor_bounds((n - 1) as nat);
        let r = sqrt_floor((n - 1) as nat);
        assert(sqrt_floor(n) == if (r + 1) * (r + 1) <= n {
            r + 1
        } else {
            r
        });
        if (r + 1) * (r + 1) <= n {
            assert(sqrt_floor(n) == r + 1);
            assert(n < (r + 1 + 1) * (r + 1 + 1)) by (nonlinear_arith)
                requires
                    n <= (r + 1) * (r + 1),
                    r >= 0,
            ;
        } else {
            assert(sqrt_floor(n) == r);
            assert(sqrt_floor(n) * sqrt_floor(n) <= n);
            assert(n < (r + 1) * (r + 1));
        }
    }
}

/// If `n < m * m` then the floor square root of `n` stays below `m`.
pub proof fn lemma_sqrt_below(n: nat, m: nat)
    requires
        n < m * m,
    ensures
        sqrt_floor(n) < m,
{
    lemma_sqrt_floor_bounds(n);
    let r = sqrt_floor(n);
    assert(r < m) by (nonlinear_arith)
        requires
            r * r <= n,
            n < m * m,
            r >= 0,
            m >= 0,
    ;
}

/// A square below `n` has its base below the floor square root of `n`.
pub proof fn lemma_component_below_sqrt(x: int, n: nat)
    requires
        x * x <= n,
    ensures
        within(x, sqrt_floor(n) as int),
{
    lemma_sqrt_floor_bounds(n);
    let s = sqrt_floor(n);
    assert(-(s as int) <= x <= s as int) by (nonlinear_arith)
        requires
            x * x <= n,
            n < (s + 1) * (s + 1),
            s >= 0,
    ;
}

proof fn lemma_sqrt_unique(n: nat, r: nat)
    requires
        r * r <= n,
        n < (r + 1) * (r + 1),
    ensures
        r == sqrt_floor(n),
{
    lemma_sqrt_floor_bounds(n);
    let s = sqrt_floor(n);
    assert(r == s) by (nonlinear_arith)
        requires
            r * r <= n,
            n < (r + 1) * (r + 1),
            s * s <= n,
            n < (s + 1) * (s + 1),
            r >= 0,
            s >= 0,
    ;
}

/// Floor square root of a `u128`, by binary search on the root.
pub fn isqrt_u128(n: u128) -> (r: u128)
    ensures
        r * r <= n,
        n < (r + 1) * (r + 1),
        r == sqrt_floor(n as nat),
{
    let mut lo: u128 = 0;
    let mut hi: u128 = 0x1_0000_0000_0000_0000;
    proof {
        assert(n < hi * hi) by (nonlinear_arith)
            requires
                hi == 0x1_0000_0000_0000_0000u128,
                n <= u128::MAX,
        ;
    }
    while lo + 1 < hi
        invariant
            lo * lo <= n,
            n < hi * hi,
            lo < hi,
            hi <= 0x1_0000_0000_0000_0000u128,
        decreases hi - lo,
    {
        let mid: u128 = lo + (hi - lo) / 2;
        proof {
            assert(mid * mid <= (hi - 1) * (hi - 1)) by (nonlinear_arith)
                requires
                    0 <= mid < hi,
            ;
            assert((hi - 1) * (hi - 1) <= u128::MAX) by (nonlinear_arith)
                requires
                    1 <= hi <= 0x1_0000_0000_0000_0000u128,
            ;
        }
        if mid * mid <= n {
            lo = mid;
        } else {
            hi = mid;
        }
    }
    proof {
        lemma_sqrt_unique(n as nat, lo as nat);
    }
    lo
}

} // verus!
