//! Draws from the thread-local random generator.

use vstd::prelude::*;

verus! {

/// A whole number from `low` to `high`, both included, drawn with
/// `rand::Rng::random_range` on the generator that `rand::rng` hands out.
/// The generator refuses an empty range, which the precondition excludes;
/// the contract claims that the draw lies in the range and nothing else.
#[verifier::external_body]
pub(crate) fn random_between(low: i64, high: i64) -> (res: i64)
    requires
        low <= high,
    ensures
        low <= res <= high,
{
    rand::Rng::random_range(&mut rand::rng(), low..=high)
}

/// A coin that comes up true `numerator` times in `denominator`, thrown
/// with `rand::Rng::random_ratio` on the generator that `rand::rng` hands
/// out. The generator refuses a zero denominator and a numerator above the
/// denominator, which the preconditions exclude; the contract claims the two
/// certain cases and nothing else.
#[verifier::external_body]
pub(crate) fn random_chance(numerator: u32, denominator: u32) -> (res: bool)
    requires
        denominator > 0,
        numerator <= denominator,
    ensures
        numerator == denominator ==> res,
        numerator == 0 ==> !res,
{
    rand::Rng::random_ratio(&mut rand::rng(), numerator, denominator)
}

} // verus!
