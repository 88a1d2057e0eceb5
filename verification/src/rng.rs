//! The one randomness primitive the sound sources draw from.

use rand::Rng;
use vstd::prelude::*;

verus! {

/// Relies on `rand::Rng::gen_range` over the integer range `0..n`:
/// the result lies in the range. The range is non-empty, so the call
/// cannot panic. Nothing more is promised of a random draw — every
/// caller's contract holds for whatever value comes back.
#[verifier::external_body]
pub fn random_below(n: usize) -> (r: usize)
    requires
        n > 0,
    ensures
        r < n,
{
    rand::thread_rng().gen_range(0..n)
}

} // verus!
