//! A small linear congruential generator.
use vstd::prelude::*;

verus! {

/// The generator's step: one multiply-add modulo 2^32.
pub open spec fn lcg_next(s: u32) -> u32 {
    ((s as int * 1664525 + 1013904223) % 0x1_0000_0000) as u32
}

/// State of a linear congruential generator of 32-bit words.
#[derive(Clone, Copy, Debug)]
pub struct Random {
    /// The last word produced (the seed before any).
    pub state: u32,
}

impl Random {
    /// A generator with the engine's fixed seed.
    pub fn new() -> (r: Self)
        ensures
            r.state == 0x21,
    {
        Random { state: 0x21 }
    }

    /// Advances the generator and returns the new state.
    pub fn get_word(&mut self) -> (r: u32)
        ensures
            r == lcg_next(old(self).state),
            final(self).state == r,
    {
        let s = self.state.wrapping_mul(1664525).wrapping_add(1013904223);
        self.state = s;
        s
    }
}

} // verus!
