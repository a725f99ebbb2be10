//! The one gateway to ambient randomness: every random draw the library
//! makes goes through `rand_range`, so all remaining logic is deterministic
//! in the values it hands back.

use vstd::prelude::*;
use rand::Rng;

verus! {

/// Relies on rand::Rng::gen_range on a thread-local generator: it returns a
/// uniformly random value of the half-open range `lo..hi`, and panics only
/// on an empty range, which the precondition rules out.
#[verifier::external_body]
pub fn rand_range(lo: i128, hi: i128) -> (r: i128)
    requires
        lo < hi,
    ensures
        lo <= r < hi,
{
    rand::thread_rng().gen_range(lo..hi)
}

} // verus!
