//! The one place where chance enters the library.

use rand_distr::Distribution;
use vstd::prelude::*;

verus! {

/// Draws one value with `rand_distr::Uniform::from(low..high)` and
/// `Distribution::sample`, fed by `rand::thread_rng()`.
///
/// Not proved: that the value lies in the half-open range `low..high`. The
/// integer sampler of `rand` returns `low` plus an offset below `high - low`.
/// Which value comes is left open, so two calls may differ. An empty range is
/// kept out, since the constructor panics on it.
#[verifier::external_body]
pub(crate) fn uniform_u32(low: u32, high: u32) -> (r: u32)
    requires
        low < high,
    ensures
        low <= r < high,
{
    rand_distr::Uniform::from(low..high).sample(&mut rand::thread_rng())
}

} // verus!
