//! The engine's single source of randomness.

use vstd::prelude::*;

verus! {

/// Relies on rand::Rng::gen_range over `0..n`: it panics on an empty
/// range and otherwise returns a value of the range, so the result is
/// below `n`. Nothing further is assumed of the draw.
#[verifier::external_body]
pub fn rand_below(n: u32) -> (r: u32)
    requires
        n >= 1,
    ensures
        r < n,
{
    rand::Rng::gen_range(&mut rand::thread_rng(), 0..n)
}

} // verus!
