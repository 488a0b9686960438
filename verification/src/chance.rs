//! Random draws. What comes back rests on chance, so the contracts state only the
//! range every outcome lies in.
use vstd::prelude::*;

use rand::Rng;

verus! {

/// A uniformly random `u32`, used as the id of a freshly spawned enemy.
///
/// Calls `rand::random::<u32>()`. Nothing is promised of the value: any `u32` can
/// come back, and two calls may return the same value.
#[verifier::external_body]
pub(crate) fn random_u32() -> u32 {
    rand::random::<u32>()
}

/// A random number in `low..=high`.
///
/// Calls `rand::thread_rng().gen_range(low..=high)`, which panics on an empty
/// range (hence the `requires`) and otherwise returns a value of the range; which
/// one is left to chance.
#[verifier::external_body]
pub(crate) fn random_in_range(low: u32, high: u32) -> (r: u32)
    requires
        low <= high,
    ensures
        low <= r <= high,
{
    rand::thread_rng().gen_range(low..=high)
}

} // verus!
