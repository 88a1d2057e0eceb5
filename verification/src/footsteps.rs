//! Footsteps: a repeat-avoiding sample selector.
//!
//! Each step plays one of a set of footstep samples, never the same
//! one twice in a row, at a slightly randomized speed. The selector
//! is an explicit state object holding the prior selection; the
//! randomness comes through [`crate::rng::random_below`], and every
//! contract here holds for whatever values the draws return.

use vstd::prelude::*;

verus! {

use crate::events::AudioEvent;
use crate::rng::random_below;

/// Remembers the last footstep sample played so the next step can
/// avoid repeating it.
#[derive(Clone, Copy, Debug, PartialEq, Eq, Structural)]
pub struct FootstepSelector {
    /// Index of the sample played last.
    pub last: usize,
}

impl FootstepSelector {
    /// A fresh selector that treats the first sample as played last.
    pub fn new() -> (r: Self)
        ensures
            r.last == 0,
    {
        FootstepSelector { last: 0 }
    }

    /// Pick the next sample index among `n` options: uniform over all
    /// options except the previous one, which is never repeated.
    pub fn next_index(&mut self, n: usize) -> (r: usize)
        requires
            n >= 2,
            old(self).last < n,
        ensures
            r < n,
            r != old(self).last,
            final(self).last == r,
    {
        let k = random_below(n - 1);
        let r = if k >= self.last {
            k + 1
        } else {
            k
        };
        self.last = r;
        r
    }

    /// Build the play intent for the next footstep: an avoided-repeat
    /// sample at a speed within five percent of normal, non-spatial,
    /// non-looping and unnamed.
    pub fn next_event(&mut self, samples: &Vec<String>, volume: u32) -> (r: AudioEvent)
        requires
            samples@.len() >= 2,
            old(self).last < samples@.len(),
        ensures
            final(self).last < samples@.len(),
            final(self).last != old(self).last,
            r.sample@ == samples@[final(self).last as int]@,
            950 <= r.speed < 1050,
            r.volume == volume,
            r.position is None,
            !r.looping,
            r.name is None,
    {
        let idx = self.next_index(samples.len());
        let jitter = random_below(100);
        let speed: u32 = 950 + (jitter as u32);
        AudioEvent {
            sample: samples[idx].clone(),
            position: None,
            speed,
            volume,
            looping: false,
            name: None,
        }
    }
}

} // verus!
