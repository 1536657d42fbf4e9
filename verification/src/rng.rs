use vstd::prelude::*;
use rand::Rng;

verus! {

/// Relies on rand: `Rng::gen_range` on the thread-local generator draws a
/// value uniformly from the inclusive range; it panics only on an empty
/// range, which the precondition rules out. Nothing more than the bounds is
/// promised of a random draw.
#[verifier::external_body]
pub(crate) fn random_in_range(min: u64, max: u64) -> (r: u64)
    requires
        min <= max,
    ensures
        min <= r <= max,
{
    let mut rng = rand::thread_rng();
    rng.gen_range(min..=max)
}

/// Relies on rand: `Rng::gen_range` on the thread-local generator draws an
/// index uniformly below the bound; it panics only on an empty range, which
/// the precondition rules out.
#[verifier::external_body]
pub(crate) fn random_below(bound: usize) -> (r: usize)
    requires
        bound >= 1,
    ensures
        r < bound,
{
    let mut rng = rand::thread_rng();
    rng.gen_range(0..bound)
}

} // verus!
