//! Block size and small numeric helpers shared by the engine.
use vstd::prelude::*;

verus! {

/// Base-two logarithm of the block size.
pub const LG_N: usize = 6;

/// Number of samples rendered per block.
pub const N: usize = 64;

/// Orders memory accesses between the audio thread and its controllers; the
/// engine is single-threaded, so there is nothing to order.
#[inline]
pub fn synth_memory_barrier() {
}

/// The smaller of two values.
#[inline]
pub fn min(a: i32, b: i32) -> (r: i32)
    ensures
        r == if a < b { a } else { b },
{
    if a < b { a } else { b }
}

/// The larger of two values.
#[inline]
pub fn max(a: i32, b: i32) -> (r: i32)
    ensures
        r == if a > b { a } else { b },
{
    if a > b { a } else { b }
}

} // verus!
