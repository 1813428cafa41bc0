//! Random integers in a range.

use rand::Rng;
use vstd::prelude::*;

verus! {

/// `rand::thread_rng().gen_range(min..=max)`: a random integer drawn from the
/// inclusive range. The value depends on chance; only that it lies in the
/// range is promised. `gen_range` panics on an empty range, which `requires`
/// leaves out.
#[verifier::external_body]
fn thread_rng_gen_range_inclusive(min: i32, max: i32) -> (r: i32)
    requires
        min <= max,
    ensures
        min <= r <= max,
{
    rand::thread_rng().gen_range(min..=max)
}

/// A random `i32` in `[min, max]` (inclusive).
pub fn random_range_i(min: i32, max: i32) -> (r: i32)
    requires
        min <= max,
    ensures
        min <= r <= max,
{
    thread_rng_gen_range_inclusive(min, max)
}

} // verus!
