use vstd::prelude::*;

verus! {

/// Relies on rand's thread-local generator: `rand::thread_rng` hands out the
/// thread's generator and `rand::Rng::gen_range` on the range `0..n` returns
/// a value of that range, below the (exclusive) upper bound; it panics only
/// on an empty range, which the precondition rules out. Nothing more is
/// assumed of the draw: callers must hold for every value below the bound.
#[verifier::external_body]
pub fn random_below(n: u32) -> (r: u32)
    requires
        n > 0,
    ensures
        r < n,
{
    rand::Rng::gen_range(&mut rand::thread_rng(), 0..n)
}

} // verus!
