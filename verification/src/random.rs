//! The random draws of the simulation, made on a generator that the host
//! seeds and hands in.

use vstd::prelude::*;
use rand::Rng;

verus! {

/// The seedable generator of the `rand` crate, carried through as an opaque
/// value.
#[verifier::external_type_specification]
#[verifier::external_body]
pub struct ExStdRng(rand::rngs::StdRng);

/// Calls `rand::Rng::gen_range` on the inclusive range from `lo` to `hi`.
/// The call panics on an empty range, which `lo <= hi` excludes; of the
/// number drawn it is trusted only that it lies in the range.
#[verifier::external_body]
pub(crate) fn draw_between(rng: &mut rand::rngs::StdRng, lo: u32, hi: u32) -> (r: u32)
    requires
        lo <= hi,
    ensures
        lo <= r <= hi,
{
    rng.gen_range(lo..=hi)
}

} // verus!
