//! The random source of the selection engine: a seedable generator injected
//! by the caller, consumed through one bounded-draw operation.

use vstd::prelude::*;

verus! {

#[verifier::external_type_specification]
#[verifier::external_body]
pub struct ExStdRng(rand::rngs::StdRng);

/// Relies on `rand::Rng::gen_range` over the half-open range `0..n`: it
/// returns a uniformly sampled value of that range, so the result is below
/// `n`. The range is non-empty, so the call cannot panic.
#[verifier::external_body]
pub(crate) fn rng_below(rng: &mut rand::rngs::StdRng, n: u64) -> (r: u64)
    requires
        n >= 1,
    ensures
        r < n,
{
    rand::Rng::gen_range(rng, 0..n)
}

} // verus!
