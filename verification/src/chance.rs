//! Chance: the one place where the library asks for a random number.

use vstd::prelude::*;
use rand::Rng;

verus! {

/// Calls `gen_range` of `rand::Rng` on `rand::thread_rng()` with the range
/// `0..sides`. `rand` samples a value of the range; it panics on an empty
/// range, which `sides > 0` rules out. Nothing more is known of the result:
/// two calls may differ.
#[verifier::external_body]
pub(crate) fn roll(sides: u32) -> (r: u32)
    requires
        sides > 0,
    ensures
        r < sides,
{
    rand::thread_rng().gen_range(0..sides)
}

} // verus!
