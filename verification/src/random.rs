//! The source of chance.

use rand::Rng;
use vstd::prelude::*;

verus! {

/// `Rng::gen_range` of rand on the thread's generator, which panics on an
/// empty range: some number of the range `low..high`. Which one it is, and how
/// often, is left open.
#[verifier::external_body]
pub(crate) fn gen_range(low: u32, high: u32) -> (drawn: u32)
    requires
        low < high,
    ensures
        low <= drawn < high,
{
    rand::rngs::ThreadRng::default().gen_range(low..high)
}

} // verus!
