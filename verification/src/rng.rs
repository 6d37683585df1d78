//! Random choices.
use rand::Rng;
use vstd::prelude::*;

verus! {

/// `Rng::gen_range` of rand's thread-local generator over an inclusive range: some number
/// of the range. Which one is left to chance.
#[verifier::external_body]
pub(crate) fn gen_range(lo: u64, hi: u64) -> (r: u64)
    requires
        lo <= hi,
    ensures
        lo <= r <= hi,
{
    rand::thread_rng().gen_range(lo..=hi)
}

} // verus!
