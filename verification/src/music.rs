//! Music: a latch that starts the theme exactly once.

use vstd::prelude::*;

verus! {

use vstd::string::StringExecFns;

use crate::events::AudioEvent;

/// Whether the theme has been queued yet.
#[derive(Clone, Copy, Debug, PartialEq, Eq, Structural)]
pub struct MusicState {
    /// The theme is already playing; later requests are ignored.
    pub playing: bool,
}

impl MusicState {
    /// Nothing playing yet.
    pub fn new() -> (r: Self)
        ensures
            !r.playing,
    {
        MusicState { playing: false }
    }

    /// Handle a music request: the first one yields the looping theme
    /// intent (named so fades can reach it later); every later one
    /// yields nothing.
    pub fn on_music_event(&mut self) -> (r: Option<AudioEvent>)
        ensures
            final(self).playing,
            (r is Some) == !old(self).playing,
            match r {
                Some(e) => {
                    &&& e.sample@ == "aster.ogg"@
                    &&& e.position is None
                    &&& e.speed == 800
                    &&& e.volume == 520
                    &&& e.looping
                    &&& (e.name matches Some(n) && n@ == "music"@)
                },
                None => true,
            },
    {
        if self.playing {
            None
        } else {
            self.playing = true;
            Some(
                AudioEvent {
                    sample: String::from_str("aster.ogg"),
                    position: None,
                    speed: 800,
                    volume: 520,
                    looping: true,
                    name: Some(String::from_str("music")),
                },
            )
        }
    }
}

} // verus!
