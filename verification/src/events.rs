//! The event model: one-shot play intents and volume-fade intents.
//!
//! These are plain data contracts. Exactly one active backend consumes
//! each event, synchronously with the tick in which it was raised.

use vstd::prelude::*;

verus! {

use crate::units::MILLI_UNITY;

/// A one-shot request to start audio playback.
///
/// `position` is a 2D offset in milli-meters; `None` requests a plain
/// (non-spatial) play. `speed` and `volume` are in milli-units, where
/// 1000 is the neutral value. A `name` tags the resulting playback
/// handle so that later fade intents can address it.
#[derive(Clone, Debug)]
pub struct AudioEvent {
    /// The catalog id of the sample to play: its relative path.
    pub sample: String,
    /// 2D position in milli-meters, mapped onto the horizontal plane.
    pub position: Option<(i64, i64)>,
    /// Playback speed multiplier in milli-units (1000 = normal speed).
    pub speed: u32,
    /// Linear volume in milli-units (1000 = unity gain).
    pub volume: u32,
    /// Repeat endlessly instead of playing once.
    pub looping: bool,
    /// Optional logical name for later fade routing.
    pub name: Option<String>,
}

impl Default for AudioEvent {
    /// An empty sample id at normal speed and unity volume, non-spatial,
    /// non-looping and unnamed.
    fn default() -> (r: Self)
        ensures
            r.sample@ == Seq::<char>::empty(),
            r.position is None,
            r.speed == MILLI_UNITY,
            r.volume == MILLI_UNITY,
            !r.looping,
            r.name is None,
    {
        AudioEvent {
            sample: String::new(),
            position: None,
            speed: MILLI_UNITY,
            volume: MILLI_UNITY,
            looping: false,
            name: None,
        }
    }
}

/// A request to tween a live sound's volume over time, addressed by
/// logical name.
#[derive(Clone, Debug)]
pub struct VolumeFadeEvent {
    /// The logical name of the playback handle to target.
    pub name: String,
    /// Linear volume at the start of the tween, in milli-units.
    pub start: u32,
    /// Linear volume at the end of the tween, in milli-units.
    pub end: u32,
    /// Total tween duration in milliseconds.
    pub duration_ms: u64,
}

impl Default for VolumeFadeEvent {
    /// A one-second fade from silence to unity gain, addressed to the
    /// empty name.
    fn default() -> (r: Self)
        ensures
            r.name@ == Seq::<char>::empty(),
            r.start == 0,
            r.end == MILLI_UNITY,
            r.duration_ms == 1000,
    {
        VolumeFadeEvent { name: String::new(), start: 0, end: MILLI_UNITY, duration_ms: 1000 }
    }
}

} // verus!
