//! Randomized exponential backoff for spin-retry loops.

use vstd::prelude::*;
use rand::Rng;

verus! {

/// Produces a randomized, exponentially growing delay bounded by a maximum.
///
/// `new(min, max)` starts the delay window at `min`; every `next()` call
/// draws a delay below the current window and then doubles the window,
/// capped at `max`.  The generator is purely local state and is never shared
/// across threads.
pub struct Backoff {
    max: u64,
    current: u64,
}

/// Relies on `rand::thread_rng` and `rand::Rng::gen`: an arbitrary `u64`.
/// Nothing is assumed about the value drawn.
#[verifier::external_body]
fn random_u64() -> u64 {
    rand::thread_rng().gen::<u64>()
}

impl Backoff {
    /// The delay window is always at least one (so a draw below it is
    /// defined) and never exceeds the configured maximum.
    pub closed spec fn wf(self) -> bool {
        1 <= self.current <= self.max
    }

    /// The current upper bound on the delays that `next` returns.
    pub closed spec fn window(self) -> u64 {
        self.current
    }

    /// The configured cap on the delay window.
    pub closed spec fn cap(self) -> u64 {
        self.max
    }

    pub fn new(min: u64, max: u64) -> (r: Backoff)
        requires
            1 <= min <= max,
        ensures
            r.wf(),
            r.window() == min,
            r.cap() == max,
    {
        Backoff { max, current: min }
    }

    /// Returns a delay below the current window, then doubles the window,
    /// capped at the configured maximum.  Successive calls therefore see
    /// non-decreasing windows that start at `min` and never pass `max`.
    pub fn next(&mut self) -> (r: u64)
        requires
            old(self).wf(),
        ensures
            final(self).wf(),
            r < old(self).window(),
            final(self).cap() == old(self).cap(),
            final(self).window() == if 2 * (old(self).window() as int) <= old(self).cap() {
                2 * (old(self).window() as int)
            } else {
                old(self).cap() as int
            },
            old(self).window() <= final(self).window() <= final(self).cap(),
    {
        let drawn = random_u64();
        let delay = drawn % self.current;
        if self.current <= self.max / 2 {
            self.current = self.current * 2;
        } else {
            self.current = self.max;
        }
        delay
    }
}

} // verus!
