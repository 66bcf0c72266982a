//! Ping-pong pair of render targets: passes read one and write the other, then swap.

use vstd::prelude::*;

verus! {

/// A pair of same-sized render targets: `read` is sampled, `write` is drawn into.
pub struct DoubleFbo<T> {
    /// Target that passes sample.
    pub read: T,
    /// Target that passes draw into.
    pub write: T,
    /// Width of both targets in texels.
    pub width: u32,
    /// Height of both targets in texels.
    pub height: u32,
}

/// `d` with its two targets exchanged.
pub open spec fn swapped<T>(d: DoubleFbo<T>) -> DoubleFbo<T> {
    DoubleFbo { read: d.write, write: d.read, width: d.width, height: d.height }
}

/// `d` after `k` swaps.
pub open spec fn swapped_times<T>(d: DoubleFbo<T>, k: nat) -> DoubleFbo<T>
    decreases k,
{
    if k == 0 {
        d
    } else {
        swapped(swapped_times(d, (k - 1) as nat))
    }
}

impl<T> DoubleFbo<T> {
    /// Makes the target just drawn into the one to sample next.
    pub fn swap(&mut self)
        ensures
            *final(self) == swapped(*old(self)),
    {
        std::mem::swap(&mut self.read, &mut self.write);
    }
}

/// Two swaps give the pair back as it was.
pub proof fn lemma_swap_twice<T>(d: DoubleFbo<T>)
    ensures
        swapped(swapped(d)) == d,
{
}

/// After an even number of swaps the pair is as it started; after an odd number its
/// targets are exchanged.
pub proof fn lemma_swap_parity<T>(d: DoubleFbo<T>, k: nat)
    ensures
        swapped_times(d, k) == if k % 2 == 0 {
            d
        } else {
            swapped(d)
        },
    decreases k,
{
    if k > 0 {
        lemma_swap_parity(d, (k - 1) as nat);
    }
}

} // verus!
