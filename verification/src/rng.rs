//! The crate's only randomness source: thin wrappers over `rand`.
//! Every consumer takes the drawn values as plain integers, so the logic
//! that uses them is verified for every outcome.

use rand::seq::SliceRandom;
use rand::Rng;
use vstd::prelude::*;

verus! {

/// Relies on rand's `Rng::gen_range(0..n)`: uniform in `[0, n)`, panics
/// only on an empty range, which the precondition rules out.
#[verifier::external_body]
pub fn rand_below(n: u64) -> (r: u64)
    requires
        n >= 1,
    ensures
        r < n,
{
    rand::thread_rng().gen_range(0..n)
}

/// Relies on rand's `SliceRandom::shuffle`: permutes the slice in place
/// (Fisher-Yates), so the multiset of elements is unchanged.
#[verifier::external_body]
pub fn shuffle(v: &mut Vec<usize>)
    ensures
        final(v)@.len() == old(v)@.len(),
        final(v)@.to_multiset() == old(v)@.to_multiset(),
{
    v.as_mut_slice().shuffle(&mut rand::thread_rng());
}

/// A uniform fixed-point sample in `[0, SCALE)`, that is `[0, 1)` in world
/// units.
pub fn random_unit() -> (r: i64)
    ensures
        0 <= r < crate::math::SCALE,
{
    rand_below(crate::math::SCALE as u64) as i64
}

/// A uniform fixed-point sample in `[-SCALE, SCALE)`.
pub fn random_symmetric() -> (r: i64)
    ensures
        -crate::math::SCALE <= r < crate::math::SCALE,
{
    rand_below(2 * crate::math::SCALE as u64) as i64 - crate::math::SCALE
}

} // verus!
