//! The single randomness source of the simulation, behind a trusted
//! boundary: everything downstream is verified for every value the draw
//! could take.
use rand::Rng;
use vstd::prelude::*;

verus! {

/// Relies on rand::Rng::gen_range over the half-open range `lo..hi` of
/// i64, drawn from rand::thread_rng. The sample always lies in
/// `[lo, hi)`; nothing further is assumed of it. `gen_range` panics on an
/// empty range, which the precondition rules out.
#[verifier::external_body]
pub(crate) fn random_in_range(lo: i64, hi: i64) -> (r: i64)
    requires
        lo < hi,
    ensures
        lo <= r < hi,
{
    rand::thread_rng().gen_range(lo..hi)
}

} // verus!
