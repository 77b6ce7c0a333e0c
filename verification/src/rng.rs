//! The injected random source: a seedable generator from the `rand`
//! crate, reached only through a wrapper that fixes the range of every
//! draw.

use vstd::prelude::*;

verus! {

/// Declares rand's `StdRng` so it can appear in signatures.  The
/// generator is opaque here: nothing is assumed about its state, and
/// callers seed it themselves (`SeedableRng`) for deterministic runs.
#[verifier::external_type_specification]
#[verifier::external_body]
pub struct ExStdRng(rand::rngs::StdRng);

/// Relies on rand's `RngExt::random_range` over a half-open `i64`
/// range: the result lies in `[lo, hi)`.  It panics only on an empty
/// range, which the precondition rules out.  Which value comes back is
/// not assumed: every caller is verified for all outcomes in the range.
#[verifier::external_body]
pub(crate) fn rng_range(rng: &mut rand::rngs::StdRng, lo: i64, hi: i64) -> (r: i64)
    requires
        lo < hi,
    ensures
        lo <= r < hi,
{
    rand::RngExt::random_range(rng, lo..hi)
}

} // verus!
