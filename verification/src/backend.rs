//! The backend capability surface, realized twice.
//!
//! Exactly one backend is selected at process start and consumes the
//! whole intent stream: it handles each play intent, routes each fade
//! intent by logical name, and runs per-tick maintenance. This trait
//! is that capability set. Its contracts are the guarantees common to
//! both realizations; each backend's inherent methods state the full,
//! exact behaviour (which pool slot or sink id serves an intent, every
//! action emitted, every handle's fields).

use vstd::prelude::*;

verus! {

use crate::AudioError;
use crate::buffer::BufferBackend;
use crate::buffer::SinkAction;
use crate::buffer::lemma_sink_surviving_len;
use crate::buffer::spec_sink_names;
use crate::catalog::SampleMap;
use crate::events::AudioEvent;
use crate::events::VolumeFadeEvent;
use crate::graph::GraphAction;
use crate::graph::GraphBackend;
use crate::graph::lemma_surviving_len;
use crate::graph::spec_names;
use crate::router::has_match;

/// The logical name a play intent tags its handle with, as a view.
pub open spec fn spec_event_name(event: AudioEvent) -> Option<Seq<char>> {
    match event.name {
        Some(n) => Some(n@),
        None => None,
    }
}

/// What every backend owes the intent stream: an unknown sample is
/// surfaced and plays nothing, a successful play adds exactly one
/// live handle (carrying the intent's name), a fade lands exactly
/// when a live handle matches its name, a failure of either mutates
/// nothing, and maintenance never invents a handle.
pub trait AudioBackend: Sized {
    /// What the engine driver performs after each call.
    type Action;

    /// The backend's internal invariant.
    spec fn backend_wf(&self) -> bool;

    /// The logical names of the live handles, oldest first.
    spec fn live_names(&self) -> Seq<Option<Seq<char>>>;

    /// Consume one play intent.
    fn trigger_intent(&mut self, event: &AudioEvent, catalog: &SampleMap) -> (r: Result<
        Self::Action,
        AudioError,
    >)
        requires
            old(self).backend_wf(),
            catalog.wf(),
        ensures
            final(self).backend_wf(),
            catalog.spec_get(event.sample@) is None ==> (r matches Err(e) && e
                == AudioError::UnknownSample),
            r is Ok ==> catalog.spec_get(event.sample@) is Some && final(self).live_names() == old(
                self,
            ).live_names().push(spec_event_name(*event)),
            r is Err ==> *final(self) == *old(self),
    ;

    /// Consume one fade intent, routed by logical name.
    fn fade_intent(&mut self, event: &VolumeFadeEvent) -> (r: Result<(), AudioError>)
        requires
            old(self).backend_wf(),
        ensures
            final(self).backend_wf(),
            (r is Ok) == has_match(old(self).live_names(), event.name@),
            r matches Err(e) ==> e == AudioError::NoSuchNamedHandle && *final(self) == *old(self),
            final(self).live_names() == old(self).live_names(),
    ;

    /// Run one tick of maintenance: advance fades, reap finished
    /// handles, and synchronize with the engine.
    fn maintain(&mut self, delta_ms: u64) -> (acts: Vec<Self::Action>)
        requires
            old(self).backend_wf(),
        ensures
            final(self).backend_wf(),
            final(self).live_names().len() <= old(self).live_names().len(),
    ;
}

impl AudioBackend for GraphBackend {
    type Action = GraphAction;

    open spec fn backend_wf(&self) -> bool {
        self.wf()
    }

    open spec fn live_names(&self) -> Seq<Option<Seq<char>>> {
        spec_names(self.handles@)
    }

    fn trigger_intent(&mut self, event: &AudioEvent, catalog: &SampleMap) -> (r: Result<
        GraphAction,
        AudioError,
    >) {
        let r = self.trigger(event, catalog);
        proof {
            if r is Ok {
                assert(spec_names(self.handles@) =~= spec_names(old(self).handles@).push(
                    spec_event_name(*event),
                ));
            }
        }
        r
    }

    fn fade_intent(&mut self, event: &VolumeFadeEvent) -> (r: Result<(), AudioError>) {
        let r = self.fade(event);
        proof {
            assert(spec_names(self.handles@) =~= spec_names(old(self).handles@));
        }
        r
    }

    fn maintain(&mut self, delta_ms: u64) -> (acts: Vec<GraphAction>) {
        let acts = self.tick(delta_ms);
        proof {
            lemma_surviving_len(old(self).handles@, delta_ms as int);
        }
        acts
    }
}

impl AudioBackend for BufferBackend {
    type Action = SinkAction;

    open spec fn backend_wf(&self) -> bool {
        self.wf()
    }

    open spec fn live_names(&self) -> Seq<Option<Seq<char>>> {
        spec_sink_names(self.handles@)
    }

    fn trigger_intent(&mut self, event: &AudioEvent, catalog: &SampleMap) -> (r: Result<
        SinkAction,
        AudioError,
    >) {
        if self.next_sink == usize::MAX {
            // the sink id space is spent: refuse the intent like an
            // exhausted pool, after the sample id has been vetted
            if catalog.get(&event.sample).is_none() {
                return Err(AudioError::UnknownSample);
            }
            return Err(AudioError::PoolExhausted);
        }
        let r = self.trigger(event, catalog);
        proof {
            if r is Ok {
                assert(spec_sink_names(self.handles@) =~= spec_sink_names(
                    old(self).handles@,
                ).push(spec_event_name(*event)));
            }
        }
        r
    }

    fn fade_intent(&mut self, event: &VolumeFadeEvent) -> (r: Result<(), AudioError>) {
        let r = self.fade(event);
        proof {
            assert(spec_sink_names(self.handles@) =~= spec_sink_names(old(self).handles@));
        }
        r
    }

    fn maintain(&mut self, delta_ms: u64) -> (acts: Vec<SinkAction>) {
        let acts = self.tick(delta_ms);
        proof {
            lemma_sink_surviving_len(old(self).handles@, delta_ms as int);
        }
        acts
    }
}

} // verus!
