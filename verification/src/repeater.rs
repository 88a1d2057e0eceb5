//! A repeating sound timer: fires an intent at randomized intervals.
//!
//! Footsteps repeat every 0.9 to 1.1 seconds, crow caws every 10 to
//! 25 seconds; both are this one state object with different bounds.
//! On each firing the timer re-arms itself with a fresh random
//! interval drawn from its range.

use vstd::prelude::*;

verus! {

use crate::rng::random_below;

/// A countdown that fires repeatedly, re-arming with a random
/// interval inside `[min_interval_ms, max_interval_ms)` each time.
#[derive(Clone, Copy, Debug, PartialEq, Eq, Structural)]
pub struct SoundRepeater {
    /// Milliseconds left until the next firing.
    pub timer_ms: u64,
    /// Smallest interval the re-arm can draw.
    pub min_interval_ms: u64,
    /// One past the largest interval the re-arm can draw.
    pub max_interval_ms: u64,
}

impl SoundRepeater {
    /// The interval range is non-empty and small enough to draw from.
    pub open spec fn wf(self) -> bool {
        &&& self.min_interval_ms < self.max_interval_ms
        &&& self.max_interval_ms - self.min_interval_ms <= usize::MAX
    }

    /// A repeater armed with a random interval from its range.
    pub fn new(min_interval_ms: u64, max_interval_ms: u64) -> (r: Self)
        requires
            min_interval_ms < max_interval_ms,
            max_interval_ms - min_interval_ms <= usize::MAX,
        ensures
            r.wf(),
            r.min_interval_ms == min_interval_ms,
            r.max_interval_ms == max_interval_ms,
            min_interval_ms <= r.timer_ms < max_interval_ms,
    {
        let span = (max_interval_ms - min_interval_ms) as usize;
        let draw = random_below(span) as u64;
        SoundRepeater { timer_ms: min_interval_ms + draw, min_interval_ms, max_interval_ms }
    }

    /// Advance the countdown by one tick's delta. When it reaches
    /// zero the repeater fires — the caller emits its sound — and the
    /// countdown re-arms with a fresh random interval from the range.
    pub fn tick(&mut self, delta_ms: u64) -> (fired: bool)
        requires
            old(self).wf(),
        ensures
            final(self).wf(),
            final(self).min_interval_ms == old(self).min_interval_ms,
            final(self).max_interval_ms == old(self).max_interval_ms,
            fired == (delta_ms >= old(self).timer_ms),
            fired ==> old(self).min_interval_ms <= final(self).timer_ms < old(
                self,
            ).max_interval_ms,
            !fired ==> final(self).timer_ms == old(self).timer_ms - delta_ms,
    {
        if delta_ms >= self.timer_ms {
            let span = (self.max_interval_ms - self.min_interval_ms) as usize;
            let draw = random_below(span) as u64;
            self.timer_ms = self.min_interval_ms + draw;
            true
        } else {
            self.timer_ms = self.timer_ms - delta_ms;
            false
        }
    }
}

} // verus!
