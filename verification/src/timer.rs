//! Frame countdown timers.
use vstd::prelude::*;

verus! {

/// A countdown in frames; 0 means stopped.
#[derive(Debug, Clone, Copy, PartialEq, Eq, Structural)]
pub struct Timer(pub u32);

/// The value of a timer after one tick from `v`.
pub open spec fn ticked(v: u32) -> u32 {
    if v == 0 { 0 } else { (v - 1) as u32 }
}

/// Whether a tick from `v` fires (reaches zero on this tick).
pub open spec fn fires(v: u32) -> bool {
    v == 1
}

/// The value of a timer after `k` ticks from `v`.
pub open spec fn after_ticks(v: u32, k: nat) -> u32
    decreases k,
{
    if k == 0 { v } else { after_ticks(ticked(v), (k - 1) as nat) }
}

impl Default for Timer {
    fn default() -> (r: Timer)
        ensures
            r.0 == 0,
    {
        Timer(0)
    }
}

impl Timer {
    /// Counts down one frame; returns true exactly when the countdown reaches zero now.
    pub fn tick(&mut self) -> (r: bool)
        ensures
            final(self).0 == ticked(old(self).0),
            r == fires(old(self).0),
    {
        if self.0 == 0 {
            return false;
        }

        self.0 = self.0 - 1;

        if self.0 == 0 {
            return true;
        }

        false
    }

    /// Starts a countdown of `n` frames (0 stops the timer).
    pub fn set(&mut self, n: u32)
        ensures
            final(self).0 == n,
    {
        self.0 = n;
    }

    /// Stops the timer.
    pub fn stop(&mut self)
        ensures
            final(self).0 == 0,
    {
        self.0 = 0;
    }
}

/// A timer started with `n > 0` frames fires on its `n`-th tick and on no other tick:
/// the tick numbered `k` (counting from 1) fires exactly when `k == n`.
pub proof fn lemma_timer_fires_once(n: u32, k: nat)
    requires
        n > 0,
        k >= 1,
    ensures
        fires(after_ticks(n, (k - 1) as nat)) <==> k == n,
    decreases k,
{
    lemma_after_ticks(n, (k - 1) as nat);
}

/// After `k` ticks a timer started at `v` shows `v - k`, or 0 once it has run out.
pub proof fn lemma_after_ticks(v: u32, k: nat)
    ensures
        after_ticks(v, k) == if k <= v { (v - k) as u32 } else { 0u32 },
    decreases k,
{
    if k > 0 {
        lemma_after_ticks(ticked(v), (k - 1) as nat);
    }
}

} // verus!
