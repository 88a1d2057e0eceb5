//! An audio-engine comparison core: one stream of playback and fade
//! intents, realized by two interchangeable backends.
//!
//! The crate models every quantity in fixed point so that the behaviour
//! of the dispatch layer is exact: linear volumes in milli-units
//! (1000 = unity gain), applied amplitudes in micro-units (the graph
//! engine's linear-to-amplitude law squares the linear volume), 2D
//! positions in milli-meters, and time in milliseconds.
//!
//! The backends own no audio device themselves: each call returns the
//! engine actions (start a worker or sink, push a volume, release a
//! slot) that a thin driver performs against the real engine.

use vstd::prelude::*;

pub mod backend;
pub mod buffer;
pub mod catalog;
pub mod chimes;
pub mod events;
pub mod fade;
pub mod footsteps;
pub mod graph;
pub mod music;
pub mod pool;
pub mod repeater;
pub mod rng;
pub mod router;
pub mod units;

verus! {

/// Everything that can go wrong while dispatching an intent.
///
/// `DecodeSkip` never surfaces from the catalog (a file that fails to
/// decode is simply omitted), so it has no variant here.
#[derive(Clone, Copy, Debug, PartialEq, Eq, Structural)]
pub enum AudioError {
    /// A play intent named a sample id absent from the catalog.
    UnknownSample,
    /// The graph backend has no free worker slot in the required pool.
    PoolExhausted,
    /// A fade intent named a logical name with no live match.
    NoSuchNamedHandle,
    /// No output device or stream could be opened (fatal at startup).
    DeviceInitFailure,
}

impl AudioError {
    /// A short description, for drivers that report failed intents.
    pub fn describe(&self) -> (r: &'static str)
        ensures
            r@.len() > 0,
    {
        proof {
            reveal_strlit("unknown sample");
            reveal_strlit("worker pool exhausted");
            reveal_strlit("no live handle with that name");
            reveal_strlit("audio device initialization failed");
        }
        match self {
            AudioError::UnknownSample => "unknown sample",
            AudioError::PoolExhausted => "worker pool exhausted",
            AudioError::NoSuchNamedHandle => "no live handle with that name",
            AudioError::DeviceInitFailure => "audio device initialization failed",
        }
    }
}

} // verus!
