//! Draws from the random number generator of `fastrand`.
use fastrand::Rng;
use vstd::prelude::*;

verus! {

#[verifier::external_type_specification]
#[verifier::external_body]
pub struct ExRng(Rng);

/// `fastrand::Rng::usize` over `0..n`: a number below `n`. Which number
/// comes out depends on the state of the generator, which the call advances;
/// nothing more is claimed of it.
#[verifier::external_body]
pub(crate) fn rng_index_below(rng: &mut Rng, n: usize) -> (r: usize)
    requires
        n > 0,
    ensures
        r < n,
{
    rng.usize(0..n)
}

} // verus!
