//! The one source of randomness in the simulation, behind a single
//! trusted wrapper. Spawn positions, spawn shapes, random enemy
//! velocities and the exploration draws of the agent are all derived
//! from it in verified code.

use vstd::prelude::*;

verus! {

/// Relies on `rand::Rng::gen_range` on `rand::thread_rng`: a draw from
/// the half-open range `0..n`, which is non-empty because `n > 0`.
/// Nothing more is promised of the value.
#[verifier::external_body]
pub(crate) fn rand_below(n: u64) -> (r: u64)
    requires
        n > 0,
    ensures
        r < n,
{
    rand::Rng::gen_range(&mut rand::thread_rng(), 0..n)
}

} // verus!
