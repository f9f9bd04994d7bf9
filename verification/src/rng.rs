//! The source of chance.

use rand::Rng;
use vstd::prelude::*;

verus! {

/// A number drawn at random from `lo..=hi`.
///
/// Calls `rand::Rng::gen_range` on the generator that `rand::thread_rng`
/// hands out, with the inclusive range `lo..=hi`. Not proved, but taken
/// from the crate: the number lies in the range. Nothing is claimed about
/// how the numbers are distributed, and two calls may differ.
///
/// The crate panics on an empty range, which the precondition rules out.
/// It also panics where the operating system has no randomness to seed
/// the generator with; no argument can rule that out.
#[verifier::external_body]
pub(crate) fn random_between(lo: u16, hi: u16) -> (drawn: u16)
    requires
        lo <= hi,
    ensures
        lo <= drawn <= hi,
{
    rand::thread_rng().gen_range(lo..=hi)
}

} // verus!
