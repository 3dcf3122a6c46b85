pub mod history;
pub mod particle;
pub mod render;
pub mod rng;
pub mod scope;
pub mod theme;

use vstd::prelude::*;

verus! {

/// Computes the pacing wait before the next frame: the remainder of the
/// target interval after the elapsed time, and zero when the frame ran over
/// budget (never a negative wait).
pub fn remaining_wait(interval_ms: u64, elapsed_ms: u64) -> (wait: u64)
    ensures
        wait == if elapsed_ms < interval_ms {
            interval_ms - elapsed_ms
        } else {
            0int
        },
{
    if elapsed_ms < interval_ms {
        interval_ms - elapsed_ms
    } else {
        0
    }
}

} // verus!
