//! Fade state: a time-bounded volume tween attached to a live handle.

use vstd::prelude::*;

verus! {

use crate::events::VolumeFadeEvent;
use crate::units::lemma_lerp_bounds;
use crate::units::lerp_milli;
use crate::units::saturating_add_ms;
use crate::units::spec_lerp;

/// The tween attached to one playback handle: start and end volumes in
/// milli-units and an elapsed timer against a total duration.
///
/// The holder ticks it every frame, applies [`VolumeFade::current_volume`]
/// to the handle, and removes the state once [`VolumeFade::finished`];
/// the handle itself is untouched, only the tween ends.
#[derive(Clone, Copy, Debug, PartialEq, Eq, Structural)]
pub struct VolumeFade {
    /// Linear volume at the start of the tween, in milli-units.
    pub start: u32,
    /// Linear volume at the end of the tween, in milli-units.
    pub end: u32,
    /// Total tween duration in milliseconds.
    pub duration_ms: u64,
    /// Time elapsed since the tween was attached, in milliseconds.
    pub elapsed_ms: u64,
}

impl VolumeFade {
    /// The volume the tween prescribes at its current elapsed time.
    pub open spec fn spec_current(self) -> int {
        spec_lerp(self.start as int, self.end as int, self.elapsed_ms as int, self.duration_ms as int)
    }

    /// The tween's timer has completed.
    pub open spec fn spec_finished(self) -> bool {
        self.elapsed_ms >= self.duration_ms
    }

    /// Begin the tween a fade intent asks for, with the elapsed timer
    /// initialized to zero.
    pub fn begin(event: &VolumeFadeEvent) -> (r: Self)
        ensures
            r.start == event.start,
            r.end == event.end,
            r.duration_ms == event.duration_ms,
            r.elapsed_ms == 0,
    {
        VolumeFade {
            start: event.start,
            end: event.end,
            duration_ms: event.duration_ms,
            elapsed_ms: 0,
        }
    }

    /// Advance the elapsed timer by one tick's delta.
    pub fn tick(&mut self, delta_ms: u64)
        ensures
            final(self).start == old(self).start,
            final(self).end == old(self).end,
            final(self).duration_ms == old(self).duration_ms,
            final(self).elapsed_ms == if old(self).elapsed_ms + delta_ms > u64::MAX {
                u64::MAX as int
            } else {
                old(self).elapsed_ms + delta_ms
            },
    {
        self.elapsed_ms = saturating_add_ms(self.elapsed_ms, delta_ms);
    }

    /// The tween's timer has completed; at that point the current
    /// volume is exactly the end volume.
    pub fn finished(&self) -> (r: bool)
        ensures
            r == self.spec_finished(),
    {
        self.elapsed_ms >= self.duration_ms
    }

    /// The volume prescribed right now: `lerp(start, end, elapsed / duration)`,
    /// in milli-units.
    pub fn current_volume(&self) -> (r: u32)
        ensures
            r == self.spec_current(),
    {
        lerp_milli(self.start, self.end, self.elapsed_ms, self.duration_ms)
    }
}

/// Fade application is idempotent at completion: once `elapsed >= duration`
/// the prescribed volume equals `end` exactly, and a further tick leaves
/// the tween finished with the same prescribed volume.
pub proof fn lemma_fade_idempotent_at_completion(fade: VolumeFade, delta_ms: u64)
    requires
        fade.spec_finished(),
    ensures
        fade.spec_current() == fade.end,
        ({
            let later = VolumeFade {
                elapsed_ms: if fade.elapsed_ms + delta_ms > u64::MAX {
                    u64::MAX
                } else {
                    (fade.elapsed_ms + delta_ms) as u64
                },
                ..fade
            };
            later.spec_finished() && later.spec_current() == fade.end
        }),
{
}


/// The tween never overshoots: at every point of its life the
/// prescribed volume lies between the start and end volumes.
pub proof fn lemma_fade_within_endpoints(fade: VolumeFade)
    ensures
        fade.spec_current() >= if fade.start <= fade.end {
            fade.start as int
        } else {
            fade.end as int
        },
        fade.spec_current() <= if fade.start <= fade.end {
            fade.end as int
        } else {
            fade.start as int
        },
{
    lemma_lerp_bounds(
        fade.start as int,
        fade.end as int,
        fade.elapsed_ms as int,
        fade.duration_ms as int,
    );
}

} // verus!
