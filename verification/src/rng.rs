//! The pseudo-random generator used for food placement. The generator is
//! an explicit instance owned by the caller and passed by reference, so
//! game sessions are deterministic for a fixed seed.

use vstd::prelude::*;

verus! {

#[verifier::external_type_specification]
#[verifier::external_body]
pub struct ExRng(fastrand::Rng);

/// Relies on fastrand::Rng::i8: on the non-empty range `0..bound` it
/// returns `0 + (g mod bound)` for a generator word `g`, which lies in
/// that range; `bound > 0` keeps the range non-empty, so the call cannot
/// panic.
#[verifier::external_body]
pub(crate) fn rand_i8_below(rng: &mut fastrand::Rng, bound: i8) -> (r: i8)
    requires
        bound > 0,
    ensures
        0 <= r < bound,
{
    rng.i8(0..bound)
}

} // verus!
