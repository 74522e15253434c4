//! Randomness drawn from the thread-local generator of `rand`.

use rand::Rng;
use vstd::prelude::*;

verus! {

/// Relies on `rand::thread_rng().gen_range(0..bound)`: a uniform draw in
/// `[0, bound)`; the range must not be empty, or the call panics.
#[verifier::external_body]
pub(crate) fn random_below(bound: u32) -> (r: u32)
    requires
        bound > 0,
    ensures
        r < bound,
{
    rand::thread_rng().gen_range(0..bound)
}

/// A colour drawn uniformly from all RGB triples.
pub fn random_rgb() -> (r: (u8, u8, u8)) {
    let r = random_below(256) as u8;
    let g = random_below(256) as u8;
    let b = random_below(256) as u8;
    (r, g, b)
}

} // verus!
