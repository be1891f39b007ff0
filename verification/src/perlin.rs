//! Coherent gradient noise: three shuffled 256-entry permutation tables and
//! 256 random gradient vectors, gathered over a lattice and blended with a
//! smoothstep weight. The tables are proved to stay permutations of
//! `0..256`, so every lattice lookup is in bounds; the noise value itself is
//! pinned to a magnitude bound.

use vstd::prelude::*;

use crate::math::{div_i128, within, SCALE};
use crate::rng::{random_symmetric, shuffle};
use crate::vec3::{vec_within, Vec3};

verus! {

pub const TABLE: usize = 256;

#[derive(Clone)]
pub struct Perlin {
    pub ranvec: Vec<Vec3>,
    pub perm_x: Vec<usize>,
    pub perm_y: Vec<usize>,
    pub perm_z: Vec<usize>,
}

pub open spec fn perm_wf(p: Seq<usize>) -> bool {
    p.len() == TABLE && forall|i: int| 0 <= i < p.len() ==> p[i] < TABLE
}

pub open spec fn perlin_wf(p: Perlin) -> bool {
    &&& p.ranvec@.len() == TABLE
    &&& forall|i: int| 0 <= i < p.ranvec@.len() ==> vec_within(#[trigger] p.ranvec@[i], SCALE as int)
    &&& perm_wf(p.perm_x@)
    &&& perm_wf(p.perm_y@)
    &&& perm_wf(p.perm_z@)
}

/// 256 gradient vectors with components in `[-1, 1)`.
fn perlin_generate() -> (r: Vec<Vec3>)
    ensures
        r@.len() == TABLE,
        forall|i: int| 0 <= i < r@.len() ==> vec_within(#[trigger] r@[i], SCALE as int),
{
    let mut p: Vec<Vec3> = Vec::new();
    let mut n: usize = 0;
    while n < TABLE
        invariant
            n == p@.len(),
            n <= TABLE,
            forall|i: int| 0 <= i < p@.len() ==> vec_within(#[trigger] p@[i], SCALE as int),
        decreases TABLE - n,
    {
        let v = Vec3::new(random_symmetric(), random_symmetric(), random_symmetric());
        p.push(v);
        n = n + 1;
    }
    p
}

/// Every table index occurs in the sequence: with the fixed length this
/// makes it a true permutation of `0..256`.
pub open spec fn perm_complete(p: Seq<usize>) -> bool {
    forall|v: usize| v < TABLE ==> p.contains(v)
}

/// The identity table `0..256`, shuffled: still a permutation, so every
/// entry stays below the table size and every index occurs.
fn perlin_generate_perm() -> (r: Vec<usize>)
    ensures
        perm_wf(r@),
        perm_complete(r@),
{
    let mut p: Vec<usize> = Vec::new();
    let mut n: usize = 0;
    while n < TABLE
        invariant
            n == p@.len(),
            n <= TABLE,
            forall|i: int| 0 <= i < p@.len() ==> #[trigger] p@[i] == i,
        decreases TABLE - n,
    {
        p.push(n);
        n = n + 1;
    }
    let ghost ident = p@;
    shuffle(&mut p);
    proof {
        broadcast use vstd::seq_lib::group_to_multiset_ensures;

        assert forall|i: int| 0 <= i < p@.len() implies p@[i] < TABLE by {
            assert(p@.contains(p@[i]));
            assert(p@.to_multiset().contains(p@[i]));
            assert(ident.to_multiset().contains(p@[i]));
            assert(ident.contains(p@[i]));
            let j = choose|j: int| 0 <= j < ident.len() && ident[j] == p@[i];
            assert(ident[j] == j);
        }
        assert forall|v: usize| v < TABLE implies p@.contains(v) by {
            assert(ident[v as int] == v);
            assert(ident.contains(v));
            assert(ident.to_multiset().contains(v));
            assert(p@.to_multiset().contains(v));
        }
    }
    p
}

/// The lattice cell and fractional offset of a fixed-point coordinate.
pub open spec fn floor_fp_spec(x: int) -> (int, int) {
    if x >= 0 {
        (x / SCALE as int, x % SCALE as int)
    } else {
        let y = -x;
        let q = y / SCALE as int;
        let m = y % SCALE as int;
        if m == 0 {
            (-q, 0)
        } else {
            (-q - 1, SCALE as int - m)
        }
    }
}

/// The lattice coordinate plus offset, folded into `[0, 256)`.
pub open spec fn lattice_spec(base: int, d: int) -> int {
    let t = base + d;
    if t >= 0 {
        t % 256
    } else {
        let mm = (-t) % 256;
        if mm == 0 {
            0
        } else {
            256 - mm
        }
    }
}

pub open spec fn xor_spec(a: usize, b: usize) -> usize {
    ((a as u64) ^ (b as u64)) as usize
}

/// The smoothstep weight `t^2 (3 - 2t)` or its complement.
pub open spec fn smooth_spec(t: int, d: int) -> int {
    let sm = t * t * (3 * SCALE as int - 2 * t) / 4294967296;
    if d == 1 {
        sm
    } else {
        SCALE as int - sm
    }
}

/// One corner's contribution at scale `SCALE^2`.
pub open spec fn corner_spec(g: Vec3, u: int, v: int, w: int, di: int, dj: int, dk: int) -> int {
    let q = smooth_spec(u, di) * smooth_spec(v, dj) * smooth_spec(w, dk) / 4294967296;
    let wx = u - di * SCALE as int;
    let wy = v - dj * SCALE as int;
    let wz = w - dk * SCALE as int;
    let dot = g.x as int * wx + g.y as int * wy + g.z as int * wz;
    crate::math::div0(q * dot, SCALE as int)
}

/// The gradient picked for one lattice corner: the three permutation
/// lookups combined by XOR.
pub open spec fn gradient_at(
    pl: Perlin,
    iw: int,
    jw: int,
    kw: int,
    di: int,
    dj: int,
    dk: int,
) -> Vec3 {
    let xi = lattice_spec(iw, di);
    let yi = lattice_spec(jw, dj);
    let zi = lattice_spec(kw, dk);
    let gi = xor_spec(xor_spec(pl.perm_x@[xi], pl.perm_y@[yi]), pl.perm_z@[zi]);
    pl.ranvec@[gi as int]
}

/// The full lattice gather: the eight corners' contributions, rescaled
/// back to fixed point.
pub open spec fn noise_spec(pl: Perlin, p: Vec3) -> int {
    let (iw, u) = floor_fp_spec(p.x as int);
    let (jw, v) = floor_fp_spec(p.y as int);
    let (kw, w) = floor_fp_spec(p.z as int);
    let acc = corner_spec(gradient_at(pl, iw, jw, kw, 0, 0, 0), u, v, w, 0, 0, 0) + corner_spec(
        gradient_at(pl, iw, jw, kw, 0, 0, 1),
        u,
        v,
        w,
        0,
        0,
        1,
    ) + corner_spec(gradient_at(pl, iw, jw, kw, 0, 1, 0), u, v, w, 0, 1, 0) + corner_spec(
        gradient_at(pl, iw, jw, kw, 0, 1, 1),
        u,
        v,
        w,
        0,
        1,
        1,
    ) + corner_spec(gradient_at(pl, iw, jw, kw, 1, 0, 0), u, v, w, 1, 0, 0) + corner_spec(
        gradient_at(pl, iw, jw, kw, 1, 0, 1),
        u,
        v,
        w,
        1,
        0,
        1,
    ) + corner_spec(gradient_at(pl, iw, jw, kw, 1, 1, 0), u, v, w, 1, 1, 0) + corner_spec(
        gradient_at(pl, iw, jw, kw, 1, 1, 1),
        u,
        v,
        w,
        1,
        1,
        1,
    );
    crate::math::div0(acc, SCALE as int)
}

/// The octave fold of the turbulence, from the current octave on.
pub open spec fn turb_rest(pl: Perlin, temp: Vec3, weight: int, rounds: int) -> int
    decreases rounds,
{
    if rounds <= 0 {
        0
    } else {
        crate::math::div0(weight * noise_spec(pl, temp), SCALE as int) + turb_rest(
            pl,
            dc_vec(temp),
            weight / 2,
            rounds - 1,
        )
    }
}

pub open spec fn dc_spec(x: int) -> int {
    if x > crate::math::B39 as int / 2 {
        crate::math::B39 as int
    } else if x < -(crate::math::B39 as int / 2) {
        -crate::math::B39 as int
    } else {
        2 * x
    }
}

pub open spec fn dc_vec(v: Vec3) -> Vec3 {
    Vec3 { x: dc_spec(v.x as int) as i64, y: dc_spec(v.y as int) as i64, z: dc_spec(v.z as int) as i64 }
}

pub open spec fn clamp_b39_spec(x: int) -> int {
    if x > crate::math::B39 as int {
        crate::math::B39 as int
    } else if x < -crate::math::B39 as int {
        -crate::math::B39 as int
    } else {
        x
    }
}

/// The turbulence: octaves of noise at doubling frequency and halving
/// weight, folded and taken in magnitude.
pub open spec fn turb_spec(pl: Perlin, p: Vec3, depth: int) -> int {
    let bound = if depth < 16 {
        depth
    } else {
        16
    };
    let start = Vec3 {
        x: clamp_b39_spec(p.x as int) as i64,
        y: clamp_b39_spec(p.y as int) as i64,
        z: clamp_b39_spec(p.z as int) as i64,
    };
    let a = turb_rest(pl, start, SCALE as int, bound);
    if a < 0 {
        -a
    } else {
        a
    }
}

impl Perlin {
    pub fn new() -> (r: Perlin)
        ensures
            perlin_wf(r),
            perm_complete(r.perm_x@),
            perm_complete(r.perm_y@),
            perm_complete(r.perm_z@),
    {
        Perlin {
            ranvec: perlin_generate(),
            perm_x: perlin_generate_perm(),
            perm_y: perlin_generate_perm(),
            perm_z: perlin_generate_perm(),
        }
    }

    /// Gradient noise at a point, exactly the eight-corner lattice gather
    /// of `noise_spec`; the value is bounded by `24` in world units.
    pub fn noise(&self, p: &Vec3) -> (r: i64)
        requires
            perlin_wf(*self),
            vec_within(*p, crate::math::B39 as int),
        ensures
            r == noise_spec(*self, *p),
            within(r as int, 24 * SCALE as int),
    {
        let (iw, u) = floor_fp(p.x);
        let (jw, v) = floor_fp(p.y);
        let (kw, w) = floor_fp(p.z);
        let xi0 = lattice_index(iw, 0);
        let xi1 = lattice_index(iw, 1);
        let yi0 = lattice_index(jw, 0);
        let yi1 = lattice_index(jw, 1);
        let zi0 = lattice_index(kw, 0);
        let zi1 = lattice_index(kw, 1);
        let t000 = corner_term(self.gradient(xi0, yi0, zi0), u, v, w, 0, 0, 0);
        let t001 = corner_term(self.gradient(xi0, yi0, zi1), u, v, w, 0, 0, 1);
        let t010 = corner_term(self.gradient(xi0, yi1, zi0), u, v, w, 0, 1, 0);
        let t011 = corner_term(self.gradient(xi0, yi1, zi1), u, v, w, 0, 1, 1);
        let t100 = corner_term(self.gradient(xi1, yi0, zi0), u, v, w, 1, 0, 0);
        let t101 = corner_term(self.gradient(xi1, yi0, zi1), u, v, w, 1, 0, 1);
        let t110 = corner_term(self.gradient(xi1, yi1, zi0), u, v, w, 1, 1, 0);
        let t111 = corner_term(self.gradient(xi1, yi1, zi1), u, v, w, 1, 1, 1);
        let acc: i128 = t000 + t001 + t010 + t011 + t100 + t101 + t110 + t111;
        // acc carries scale SCALE^2; one division brings it back to SCALE.
        proof {
            assert(24 * (SCALE as int * SCALE as int) == (24 * SCALE as int) * SCALE as int)
                by (nonlinear_arith)
                requires
                    SCALE as int == 65536,
            ;
            crate::math::lemma_div0_within(
                acc as int,
                SCALE as int,
                (24 * SCALE as int) * SCALE as int,
            );
            vstd::arithmetic::div_mod::lemma_div_by_multiple(24 * SCALE as int, SCALE as int);
        }
        let s: i128 = SCALE as i128;
        div_i128(acc, s) as i64
    }

    /// The gradient vector for one combination of table indices.
    fn gradient(&self, xi: usize, yi: usize, zi: usize) -> (g: Vec3)
        requires
            perlin_wf(*self),
            xi < TABLE,
            yi < TABLE,
            zi < TABLE,
        ensures
            g == self.ranvec@[xor_spec(
                xor_spec(self.perm_x@[xi as int], self.perm_y@[yi as int]),
                self.perm_z@[zi as int],
            ) as int],
            vec_within(g, SCALE as int),
    {
        let gx = self.perm_x[xi];
        let gy = self.perm_y[yi];
        let gz = self.perm_z[zi];
        let gi = xor_index(xor_index(gx, gy), gz);
        self.ranvec[gi]
    }

    /// Octaves of noise at doubling frequency and halving weight, folded
    /// exactly as `turb_spec` into a non-negative turbulence value bounded
    /// by `48` world units.
    pub fn turbulence(&self, p: &Vec3, depth: usize) -> (r: i64)
        requires
            perlin_wf(*self),
        ensures
            r == turb_spec(*self, *p, depth as int),
            0 <= r <= 48 * SCALE,
    {
        let mut accum: i64 = 0;
        let mut temp = Vec3::new(clamp_b39(p.x), clamp_b39(p.y), clamp_b39(p.z));
        let ghost start = temp;
        let mut weight: i64 = SCALE;
        let mut oct: usize = 0;
        let bound = if depth < 16 {
            depth
        } else {
            16
        };
        while oct < bound
            invariant
                perlin_wf(*self),
                oct <= bound <= 16,
                bound as int == if depth < 16 { depth as int } else { 16int },
                0 <= weight <= SCALE,
                vec_within(temp, crate::math::B39 as int),
                within(accum as int, 48 * SCALE as int - 48 * weight as int),
                accum as int + turb_rest(*self, temp, weight as int, bound as int - oct as int)
                    == turb_rest(*self, start, SCALE as int, bound as int),
            decreases bound - oct,
        {
            let n = self.noise(&temp);
            let part = crate::math::fp_mul(weight, n);
            proof {
                assert(within(weight as int * n as int, (24 * weight as int) * SCALE as int))
                    by (nonlinear_arith)
                    requires
                        0 <= weight,
                        within(n as int, 24 * SCALE as int),
                ;
                crate::math::lemma_div0_within(
                    weight as int * n as int,
                    SCALE as int,
                    (24 * weight as int) * SCALE as int,
                );
                vstd::arithmetic::div_mod::lemma_div_by_multiple(
                    24 * weight as int,
                    SCALE as int,
                );
            }
            accum = accum + part;
            weight = weight / 2;
            let tx = double_clamped(temp.x);
            let ty = double_clamped(temp.y);
            let tz = double_clamped(temp.z);
            proof {
                assert((Vec3 { x: tx, y: ty, z: tz }) == dc_vec(temp));
            }
            temp = Vec3::new(tx, ty, tz);
            oct = oct + 1;
        }
        proof {
            assert(turb_rest(*self, temp, weight as int, 0) == 0);
        }
        if accum < 0 {
            -accum
        } else {
            accum
        }
    }
}

/// Shifting a coordinate by one full table of cells moves the lattice
/// cell by the table size and keeps the fractional offset.
proof fn lemma_floor_shift(x: int)
    requires
        within(x, crate::math::B39 as int),
    ensures
        floor_fp_spec(x + 256 * SCALE as int) == (
            floor_fp_spec(x).0 + 256,
            floor_fp_spec(x).1,
        ),
{
    let s = SCALE as int;
    if x >= 0 {
        vstd::arithmetic::div_mod::lemma_fundamental_div_mod(x, s);
        vstd::arithmetic::div_mod::lemma_mod_division_less_than_divisor(x, s);
        let q = x / s;
        let r = x % s;
        assert(x + 256 * s == s * (q + 256) + r) by (nonlinear_arith)
            requires
                x == s * q + r,
        ;
        vstd::arithmetic::div_mod::lemma_fundamental_div_mod_converse(
            x + 256 * s,
            s,
            q + 256,
            r,
        );
    } else if x + 256 * s >= 0 {
        let y = -x;
        vstd::arithmetic::div_mod::lemma_fundamental_div_mod(y, s);
        vstd::arithmetic::div_mod::lemma_mod_division_less_than_divisor(y, s);
        let q = y / s;
        let r = y % s;
        if r == 0 {
            assert(x + 256 * s == s * (256 - q) + 0) by (nonlinear_arith)
                requires
                    y == s * q + r,
                    r == 0,
                    x == -y,
            ;
            vstd::arithmetic::div_mod::lemma_fundamental_div_mod_converse(
                x + 256 * s,
                s,
                256 - q,
                0,
            );
        } else {
            assert(x + 256 * s == s * (255 - q) + (s - r)) by (nonlinear_arith)
                requires
                    y == s * q + r,
                    x == -y,
            ;
            vstd::arithmetic::div_mod::lemma_fundamental_div_mod_converse(
                x + 256 * s,
                s,
                255 - q,
                s - r,
            );
        }
    } else {
        let y = -x;
        let y2 = -(x + 256 * s);
        vstd::arithmetic::div_mod::lemma_fundamental_div_mod(y2, s);
        vstd::arithmetic::div_mod::lemma_mod_division_less_than_divisor(y2, s);
        let q2 = y2 / s;
        let r2 = y2 % s;
        assert(y == s * (q2 + 256) + r2) by (nonlinear_arith)
            requires
                y2 == s * q2 + r2,
                y == y2 + 256 * s,
        ;
        vstd::arithmetic::div_mod::lemma_fundamental_div_mod_converse(y, s, q2 + 256, r2);
    }
}

/// Shifting the lattice cell by the table size leaves the folded index
/// unchanged.
proof fn lemma_lattice_shift(base: int, d: int)
    ensures
        lattice_spec(base + 256, d) == lattice_spec(base, d),
{
    let t = base + d;
    if t >= 0 {
        vstd::arithmetic::div_mod::lemma_mod_multiples_vanish(1, t, 256);
    } else if t + 256 >= 0 {
        if -t == 256 {
            vstd::arithmetic::div_mod::lemma_small_mod(0nat, 256nat);
            vstd::arithmetic::div_mod::lemma_mod_multiples_vanish(1, 0, 256);
        } else {
            vstd::arithmetic::div_mod::lemma_small_mod((-t) as nat, 256nat);
            vstd::arithmetic::div_mod::lemma_small_mod((t + 256) as nat, 256nat);
        }
    } else {
        vstd::arithmetic::div_mod::lemma_mod_multiples_vanish(1, -t - 256, 256);
    }
}

/// The noise is periodic in each axis with period 256 units: the lattice
/// indices are folded into the table, so a full-table shift reads the same
/// gradients at the same offsets.
pub proof fn lemma_noise_periodic_x(pl: Perlin, p: Vec3)
    requires
        within(p.x as int, crate::math::B39 as int),
    ensures
        noise_spec(
            pl,
            Vec3 { x: (p.x + 256 * SCALE as int) as i64, y: p.y, z: p.z },
        ) == noise_spec(pl, p),
{
    lemma_floor_shift(p.x as int);
    lemma_lattice_shift(floor_fp_spec(p.x as int).0, 0);
    lemma_lattice_shift(floor_fp_spec(p.x as int).0, 1);
}

pub proof fn lemma_noise_periodic_y(pl: Perlin, p: Vec3)
    requires
        within(p.y as int, crate::math::B39 as int),
    ensures
        noise_spec(
            pl,
            Vec3 { x: p.x, y: (p.y + 256 * SCALE as int) as i64, z: p.z },
        ) == noise_spec(pl, p),
{
    lemma_floor_shift(p.y as int);
    lemma_lattice_shift(floor_fp_spec(p.y as int).0, 0);
    lemma_lattice_shift(floor_fp_spec(p.y as int).0, 1);
}

pub proof fn lemma_noise_periodic_z(pl: Perlin, p: Vec3)
    requires
        within(p.z as int, crate::math::B39 as int),
    ensures
        noise_spec(
            pl,
            Vec3 { x: p.x, y: p.y, z: (p.z + 256 * SCALE as int) as i64 },
        ) == noise_spec(pl, p),
{
    lemma_floor_shift(p.z as int);
    lemma_lattice_shift(floor_fp_spec(p.z as int).0, 0);
    lemma_lattice_shift(floor_fp_spec(p.z as int).0, 1);
}

/// Split a fixed-point value into its integer lattice cell and the
/// fractional offset inside it.
fn floor_fp(x: i64) -> (r: (i64, i64))
    requires
        within(x as int, crate::math::B39 as int),
    ensures
        (r.0 as int, r.1 as int) == floor_fp_spec(x as int),
        0 <= r.1 < SCALE,
        within(r.0 as int, crate::math::B39 as int),
{
    if x >= 0 {
        (x / SCALE, x % SCALE)
    } else {
        let y: i64 = -x;
        let q: i64 = y / SCALE;
        let m: i64 = y % SCALE;
        if m == 0 {
            (-q, 0)
        } else {
            (-q - 1, SCALE - m)
        }
    }
}

/// The lattice coordinate folded into `[0, 256)`.
fn lattice_index(base: i64, d: i64) -> (r: usize)
    requires
        within(base as int, crate::math::B39 as int),
        0 <= d <= 1,
    ensures
        r as int == lattice_spec(base as int, d as int),
        r < TABLE,
{
    let t: i64 = base + d;
    let m: i64 = if t >= 0 {
        t % (TABLE as i64)
    } else {
        let mm: i64 = (-t) % (TABLE as i64);
        if mm == 0 {
            0
        } else {
            TABLE as i64 - mm
        }
    };
    m as usize
}

/// XOR of two table indices stays a table index.
fn xor_index(a: usize, b: usize) -> (r: usize)
    requires
        a < TABLE,
        b < TABLE,
    ensures
        r == xor_spec(a, b),
        r < TABLE,
{
    let aa = a as u64;
    let bb = b as u64;
    proof {
        assert(aa < 256 && bb < 256 ==> (aa ^ bb) < 256) by (bit_vector);
    }
    (aa ^ bb) as usize
}

/// One corner's contribution: smoothstep weights times the gradient dotted
/// with the offset vector, at scale `SCALE^2`.
fn corner_term(g: Vec3, u: i64, v: i64, w: i64, di: i64, dj: i64, dk: i64) -> (r: i128)
    requires
        vec_within(g, SCALE as int),
        0 <= u < SCALE,
        0 <= v < SCALE,
        0 <= w < SCALE,
        0 <= di <= 1,
        0 <= dj <= 1,
        0 <= dk <= 1,
    ensures
        r as int == corner_spec(g, u as int, v as int, w as int, di as int, dj as int, dk as int),
        within(r as int, 3 * (SCALE as int * SCALE as int)),
{
    let s: i128 = SCALE as i128;
    let uu: u128 = smooth_weight(u, di) as u128;
    let vv: u128 = smooth_weight(v, dj) as u128;
    let ww: u128 = smooth_weight(w, dk) as u128;
    proof {
        crate::math::lemma_mul_le(uu as int, vv as int, SCALE as int, SCALE as int);
        crate::math::lemma_mul_le(
            uu as int * vv as int,
            ww as int,
            SCALE as int * SCALE as int,
            SCALE as int,
        );
        lemma_weight_product(uu as int, vv as int, ww as int);
    }
    let q: i128 = (uu * vv * ww / 4294967296u128) as i128;
    let wx: i128 = (u as i128) - (di as i128) * s;
    let wy: i128 = (v as i128) - (dj as i128) * s;
    let wz: i128 = (w as i128) - (dk as i128) * s;
    proof {
        crate::math::lemma_mul_within(g.x as int, wx as int, SCALE as int, SCALE as int);
        crate::math::lemma_mul_within(g.y as int, wy as int, SCALE as int, SCALE as int);
        crate::math::lemma_mul_within(g.z as int, wz as int, SCALE as int, SCALE as int);
    }
    let dot: i128 = (g.x as i128) * wx + (g.y as i128) * wy + (g.z as i128) * wz;
    proof {
        assert(within(q as int * dot as int, (3 * (SCALE as int * SCALE as int)) * SCALE as int)
            && 3 * (SCALE as int * SCALE as int) >= 0) by (nonlinear_arith)
            requires
                0 <= q as int <= SCALE as int,
                within(dot as int, 3 * (SCALE as int * SCALE as int)),
                SCALE as int == 65536,
        ;
        crate::math::lemma_div0_within(
            q as int * dot as int,
            SCALE as int,
            (3 * (SCALE as int * SCALE as int)) * SCALE as int,
        );
        vstd::arithmetic::div_mod::lemma_div_by_multiple(
            3 * (SCALE as int * SCALE as int),
            SCALE as int,
        );
    }
    div_i128(q * dot, s)
}

/// The product of three weights in `[0, SCALE]`, rescaled, stays in
/// `[0, SCALE]`.
proof fn lemma_weight_product(uu: int, vv: int, ww: int)
    requires
        0 <= uu <= SCALE as int,
        0 <= vv <= SCALE as int,
        0 <= ww <= SCALE as int,
    ensures
        0 <= uu * vv * ww <= SCALE as int * SCALE as int * SCALE as int,
        0 <= uu * vv * ww / 4294967296 <= SCALE as int,
{
    let s = SCALE as int;
    let ss = 4294967296int;
    assert(0 <= uu * vv * ww <= s * s * s && ss * s == s * s * s && ss >= 1)
        by (nonlinear_arith)
        requires
            0 <= uu <= s,
            0 <= vv <= s,
            0 <= ww <= s,
            s == 65536,
            ss == 4294967296,
    ;
    vstd::arithmetic::div_mod::lemma_div_is_ordered(uu * vv * ww, s * ss, ss);
    vstd::arithmetic::div_mod::lemma_div_by_multiple(s, ss);
    vstd::arithmetic::div_mod::lemma_div_pos_is_pos(uu * vv * ww, ss);
    assert(s * ss == ss * s) by (nonlinear_arith);
}

/// `t^2 (3 - 2 t)` at fixed-point scale, or its complement for the far
/// corner; stays in `[0, SCALE]`.
fn smooth_weight(t: i64, d: i64) -> (r: i64)
    requires
        0 <= t < SCALE,
        0 <= d <= 1,
    ensures
        r as int == smooth_spec(t as int, d as int),
        0 <= r <= SCALE,
{
    let s: u128 = SCALE as u128;
    let tt: u128 = t as u128;
    proof {
        crate::math::lemma_mul_le(tt as int, tt as int, SCALE as int, SCALE as int);
        crate::math::lemma_mul_le(
            tt as int * tt as int,
            3 * SCALE as int - 2 * tt as int,
            SCALE as int * SCALE as int,
            3 * SCALE as int,
        );
        lemma_smoothstep_range(t as int);
    }
    let smooth: i64 = (tt * tt * (3 * s - 2 * tt) / 4294967296u128) as i64;
    if d == 1 {
        smooth
    } else {
        SCALE - smooth
    }
}

proof fn lemma_smoothstep_range(t: int)
    requires
        0 <= t < SCALE as int,
    ensures
        0 <= t * t * (3 * SCALE as int - 2 * t) <= SCALE as int * SCALE as int * SCALE as int,
        t * t * (3 * SCALE as int - 2 * t) / 4294967296 <= SCALE as int,
        t * t * (3 * SCALE as int - 2 * t) / 4294967296 >= 0,
{
    let s = SCALE as int;
    let ss = 4294967296int;
    assert(0 <= (s - t) * (s - t) * (s + 2 * t)) by (nonlinear_arith)
        requires
            0 <= t < s,
    ;
    assert(0 <= t * t * (3 * s - 2 * t) && t * t * (3 * s - 2 * t) <= s * s * s && ss * s == s
        * s * s && s * ss == ss * s && ss >= 1) by (nonlinear_arith)
        requires
            0 <= t < s,
            0 <= (s - t) * (s - t) * (s + 2 * t),
            s == 65536,
            ss == 4294967296,
    ;
    vstd::arithmetic::div_mod::lemma_div_is_ordered(t * t * (3 * s - 2 * t), s * ss, ss);
    vstd::arithmetic::div_mod::lemma_div_by_multiple(s, ss);
    vstd::arithmetic::div_mod::lemma_div_pos_is_pos(t * t * (3 * s - 2 * t), ss);
}

/// Saturate a coordinate into the working bound of the noise lattice.
fn clamp_b39(x: i64) -> (r: i64)
    ensures
        r as int == clamp_b39_spec(x as int),
        within(r as int, crate::math::B39 as int),
{
    if x > crate::math::B39 {
        crate::math::B39
    } else if x < -crate::math::B39 {
        -crate::math::B39
    } else {
        x
    }
}

/// Double a coordinate, saturating at the working bound.
fn double_clamped(x: i64) -> (r: i64)
    requires
        within(x as int, crate::math::B39 as int),
    ensures
        r as int == dc_spec(x as int),
        within(r as int, crate::math::B39 as int),
{
    if x > crate::math::B39 / 2 {
        crate::math::B39
    } else if x < -(crate::math::B39 / 2) {
        -crate::math::B39
    } else {
        2 * x
    }
}

} // verus!
