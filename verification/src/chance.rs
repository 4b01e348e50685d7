use rand::Rng;
use vstd::prelude::*;

verus! {

/// Tosses a fair coin with the thread's random number generator.
///
/// This is `rand::Rng::gen_range` on the inclusive range from 0 to 1, called
/// on `rand::thread_rng()`. The contract claims only what `gen_range`
/// documents of every outcome: the value lies in the range it was given.
#[verifier::external_body]
pub(crate) fn toss() -> (side: i32)
    ensures
        0 <= side <= 1,
{
    rand::thread_rng().gen_range(0..=1)
}

} // verus!
