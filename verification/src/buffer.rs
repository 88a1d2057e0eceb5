//! The buffer backend: each play intent allocates a dedicated sink
//! (plain or spatial) directly against the output device — no worker
//! pool.
//!
//! Loudness parity with the graph backend comes from converting the
//! linear volume through the graph engine's own linear-to-amplitude
//! law before it reaches a sink; the driver additionally remaps the
//! spatial distance with a closed-form correction so the two backends
//! sound equivalent. Sinks are controlled through thread-safe handles,
//! so fades write the recomputed amplitude directly every tick — no
//! diffing is needed here.

use vstd::prelude::*;

verus! {

use crate::AudioError;
use crate::catalog::SampleInfo;
use crate::catalog::SampleMap;
use crate::events::AudioEvent;
use crate::events::VolumeFadeEvent;
use crate::fade::VolumeFade;
use crate::router::has_match;
use crate::router::is_first_match;
use crate::router::lemma_first_match_is_spec;
use crate::router::spec_first_match;
use crate::units::linear_to_amp_micro;
use crate::units::saturating_add_ms;
use crate::units::scale_duration_ms;
use crate::units::spec_amp_micro;
use crate::units::spec_scaled_duration;

/// One in-flight sound on the buffer engine: a dedicated sink.
#[derive(Clone, Debug)]
pub struct SinkHandle {
    /// The driver-side identifier of the sink this handle owns.
    pub sink: usize,
    /// Whether the sink is spatial.
    pub spatial: bool,
    /// Optional logical name for fade routing.
    pub name: Option<String>,
    /// Whether the sink repeats its sample indefinitely.
    pub looping: bool,
    /// Time since the sink started, in ms.
    pub elapsed_ms: u64,
    /// When the sink reports empty: the sample's nominal duration
    /// scaled by speed. `None` means it never empties on its own (a
    /// looping sound, or zero speed).
    pub nominal_ms: Option<u64>,
    /// Current linear volume in milli-units.
    pub volume: u32,
    /// The active volume tween, if any.
    pub fade: Option<VolumeFade>,
}

impl SinkHandle {
    /// The handle's logical name, as a view.
    pub open spec fn spec_name_view(self) -> Option<Seq<char>> {
        match self.name {
            Some(n) => Some(n@),
            None => None,
        }
    }
}

/// The logical names of a sink-handle sequence, first to last.
pub open spec fn spec_sink_names(s: Seq<SinkHandle>) -> Seq<Option<Seq<char>>> {
    s.map_values(|h: SinkHandle| h.spec_name_view())
}

/// What the engine driver must perform against the sinks after a call
/// into the backend.
#[derive(Clone, Debug, PartialEq)]
pub enum SinkAction {
    /// Allocate a sink against the output device, apply the amplitude
    /// and speed, append the sample (repeating it indefinitely when
    /// looping) and let it play.
    StartSink {
        /// The identifier the backend assigned to the new sink.
        sink: usize,
        /// Allocate a spatial sink when `true`, a plain one otherwise.
        spatial: bool,
        /// Catalog id of the sample to play.
        sample: String,
        /// Repeat indefinitely instead of playing once.
        looping: bool,
        /// Playback speed in milli-units.
        speed: u32,
        /// The amplitude to apply, in micro-units: the linear volume
        /// already converted through the graph engine's law.
        amp_micro: u64,
        /// Raw 2D offset in milli-meters; the driver applies the
        /// distance correction that matches the graph engine's curve.
        position: Option<(i64, i64)>,
    },
    /// Set a live sink's volume control to a new amplitude.
    SetSinkVolume {
        /// The sink to adjust.
        sink: usize,
        /// The amplitude to apply, in micro-units.
        amp_micro: u64,
    },
    /// Destroy a sink whose playback has finished.
    DropSink {
        /// The sink to destroy.
        sink: usize,
    },
}

/// The handle a play intent creates once a sink id is assigned.
pub open spec fn spec_new_sink(event: AudioEvent, info: SampleInfo, sink: usize) -> SinkHandle {
    SinkHandle {
        sink,
        spatial: event.position is Some,
        name: event.name,
        looping: event.looping,
        elapsed_ms: 0,
        nominal_ms: if event.looping || event.speed == 0 {
            None
        } else {
            Some(spec_scaled_duration(info.spec_duration_ms(), event.speed as int) as u64)
        },
        volume: event.volume,
        fade: None,
    }
}

/// A sink handle after one tick's worth of time.
pub open spec fn spec_sink_timed(h: SinkHandle, delta: int) -> SinkHandle {
    SinkHandle {
        elapsed_ms: if h.elapsed_ms + delta > u64::MAX {
            u64::MAX
        } else {
            (h.elapsed_ms + delta) as u64
        },
        ..h
    }
}

/// Advance a (timed) sink handle's tween, if it carries one; the new
/// volume is recomputed by the same lerp law the graph backend uses,
/// and a completed tween is removed from the handle.
pub open spec fn spec_sink_fade_step(h: SinkHandle, delta: int) -> SinkHandle {
    match h.fade {
        None => h,
        Some(f0) => {
            let f = VolumeFade {
                elapsed_ms: if f0.elapsed_ms + delta > u64::MAX {
                    u64::MAX
                } else {
                    (f0.elapsed_ms + delta) as u64
                },
                ..f0
            };
            SinkHandle {
                volume: f.spec_current() as u32,
                fade: if f.spec_finished() {
                    None
                } else {
                    Some(f)
                },
                ..h
            }
        },
    }
}

/// One tick's time-and-fade maintenance for a sink handle.
pub open spec fn spec_sink_after(h: SinkHandle, delta: int) -> SinkHandle {
    spec_sink_fade_step(spec_sink_timed(h, delta), delta)
}

/// The volume writes one tick emits: fades apply directly to the
/// sink's volume control every tick while the tween lives, converted
/// through the graph engine's linear-to-amplitude law.
pub open spec fn spec_sink_fade_acts(s: Seq<SinkHandle>, delta: int) -> Seq<SinkAction>
    decreases s.len(),
{
    if s.len() == 0 {
        Seq::empty()
    } else {
        let prefix = spec_sink_fade_acts(s.drop_last(), delta);
        if s.last().fade is Some {
            prefix.push(
                (SinkAction::SetSinkVolume {
                    sink: s.last().sink,
                    amp_micro: spec_amp_micro(
                        spec_sink_after(s.last(), delta).volume as int,
                    ) as u64,
                }),
            )
        } else {
            prefix
        }
    }
}

/// Whether a (maintained) sink now reports empty: a non-endless
/// sound whose nominal duration has elapsed. An endless sink never
/// empties on its own.
pub open spec fn spec_sink_stopped(h: SinkHandle) -> bool {
    match h.nominal_ms {
        Some(n) => h.elapsed_ms >= n,
        None => false,
    }
}

/// The sink handles that survive one tick, in order, maintained.
pub open spec fn spec_sink_surviving(s: Seq<SinkHandle>, delta: int) -> Seq<SinkHandle>
    decreases s.len(),
{
    if s.len() == 0 {
        Seq::empty()
    } else {
        let prefix = spec_sink_surviving(s.drop_last(), delta);
        if spec_sink_stopped(spec_sink_after(s.last(), delta)) {
            prefix
        } else {
            prefix.push(spec_sink_after(s.last(), delta))
        }
    }
}

/// The drop actions one tick emits: one per emptied sink, in order.
pub open spec fn spec_sink_drop_acts(s: Seq<SinkHandle>, delta: int) -> Seq<SinkAction>
    decreases s.len(),
{
    if s.len() == 0 {
        Seq::empty()
    } else {
        let prefix = spec_sink_drop_acts(s.drop_last(), delta);
        if spec_sink_stopped(spec_sink_after(s.last(), delta)) {
            prefix.push((SinkAction::DropSink { sink: s.last().sink }))
        } else {
            prefix
        }
    }
}

/// The buffer backend's tick-side state: the live sink handles and
/// the next fresh sink id.
#[derive(Debug)]
pub struct BufferBackend {
    /// The id the next allocated sink will get.
    pub next_sink: usize,
    /// All live sink handles, oldest first.
    pub handles: Vec<SinkHandle>,
}

impl BufferBackend {
    /// Sink ids are pairwise distinct and below the allocation
    /// counter, so a handle's sink is never reused while it lives.
    pub open spec fn wf(self) -> bool {
        &&& forall|i: int|
            0 <= i < self.handles@.len() ==> (#[trigger] self.handles@[i]).sink < self.next_sink
        &&& forall|i: int, j: int|
            0 <= i < j < self.handles@.len() ==> self.handles@[i].sink != self.handles@[j].sink
    }

    /// A fresh backend with no live sinks.
    pub fn new() -> (r: Self)
        ensures
            r.wf(),
            r.handles@.len() == 0,
            r.next_sink == 0,
    {
        BufferBackend { next_sink: 0, handles: Vec::new() }
    }

    /// Realize a play intent: resolve the sample and allocate a
    /// dedicated sink for it. The returned action tells the driver to
    /// create the sink with the converted amplitude (and corrected
    /// position, for spatial plays). Only an unknown sample fails;
    /// there is no pool to exhaust.
    pub fn trigger(&mut self, event: &AudioEvent, catalog: &SampleMap) -> (r: Result<
        SinkAction,
        AudioError,
    >)
        requires
            old(self).wf(),
            catalog.wf(),
            old(self).next_sink < usize::MAX,
        ensures
            final(self).wf(),
            (r is Ok) == (catalog.spec_get(event.sample@) is Some),
            match r {
                Ok(act) => {
                    &&& (act matches SinkAction::StartSink {
                        sink,
                        spatial,
                        sample,
                        looping,
                        speed,
                        amp_micro,
                        position,
                    } && {
                        &&& sink == old(self).next_sink
                        &&& spatial == (event.position is Some)
                        &&& sample@ == event.sample@
                        &&& looping == event.looping
                        &&& speed == event.speed
                        &&& amp_micro == spec_amp_micro(event.volume as int)
                        &&& position == event.position
                        &&& final(self).handles@ == old(self).handles@.push(
                            spec_new_sink(*event, catalog.spec_get(event.sample@)->Some_0, sink),
                        )
                        &&& final(self).next_sink == old(self).next_sink + 1
                    })
                },
                Err(e) => {
                    &&& e == AudioError::UnknownSample
                    &&& catalog.spec_get(event.sample@) is None
                    &&& *final(self) == *old(self)
                },
            },
    {
        let info = match catalog.get(&event.sample) {
            Some(info) => info,
            None => {
                return Err(AudioError::UnknownSample);
            },
        };
        let nominal: Option<u64> = if event.looping || event.speed == 0 {
            None
        } else {
            Some(scale_duration_ms(info.duration_ms(), event.speed))
        };
        let sink = self.next_sink;
        self.next_sink = self.next_sink + 1;
        let name: Option<String> = match &event.name {
            Some(n) => Some(n.clone()),
            None => None,
        };
        let handle = SinkHandle {
            sink,
            spatial: event.position.is_some(),
            name,
            looping: event.looping,
            elapsed_ms: 0,
            nominal_ms: nominal,
            volume: event.volume,
            fade: None,
        };
        proof {
            assert(handle == spec_new_sink(*event, info, sink));
        }
        self.handles.push(handle);
        proof {
            assert(self.handles@ =~= old(self).handles@.push(spec_new_sink(*event, info, sink)));
            assert(self.wf());
        }
        Ok(
            SinkAction::StartSink {
                sink,
                spatial: event.position.is_some(),
                sample: event.sample.clone(),
                looping: event.looping,
                speed: event.speed,
                amp_micro: linear_to_amp_micro(event.volume),
                position: event.position,
            },
        )
    }

    /// Route a fade intent exactly as the graph backend does: attach a
    /// fresh tween to the first live handle whose logical name
    /// matches, or surface `NoSuchNamedHandle` and mutate nothing.
    pub fn fade(&mut self, event: &VolumeFadeEvent) -> (r: Result<(), AudioError>)
        requires
            old(self).wf(),
        ensures
            final(self).wf(),
            final(self).next_sink == old(self).next_sink,
            (r is Ok) == has_match(spec_sink_names(old(self).handles@), event.name@),
            match r {
                Ok(_) => {
                    &&& spec_first_match(spec_sink_names(old(self).handles@), event.name@) is Some
                    &&& ({
                        let i = spec_first_match(
                            spec_sink_names(old(self).handles@),
                            event.name@,
                        )->Some_0;
                        final(self).handles@ == old(self).handles@.update(
                            i,
                            (SinkHandle {
                                fade: Some(
                                    (VolumeFade {
                                        start: event.start,
                                        end: event.end,
                                        duration_ms: event.duration_ms,
                                        elapsed_ms: 0,
                                    }),
                                ),
                                ..old(self).handles@[i]
                            }),
                        )
                    })
                },
                Err(e) => {
                    &&& e == AudioError::NoSuchNamedHandle
                    &&& *final(self) == *old(self)
                },
            },
    {
        let n = self.handles.len();
        let mut i: usize = 0;
        while i < n
            invariant
                self == old(self),
                old(self).wf(),
                n == self.handles@.len(),
                i <= n,
                forall|j: int|
                    0 <= j < i ==> (#[trigger] self.handles@[j]).spec_name_view() != Some(
                        event.name@,
                    ),
            decreases n - i,
        {
            let found = match &self.handles[i].name {
                Some(handle_name) => *handle_name == event.name,
                None => false,
            };
            if found {
                proof {
                    assert(spec_sink_names(self.handles@)[i as int] == self.handles@[i as int].spec_name_view());
                    assert forall|j: int| 0 <= j < i implies spec_sink_names(self.handles@)[j]
                        != Some(event.name@) by {
                        assert(spec_sink_names(self.handles@)[j] == self.handles@[j].spec_name_view());
                    }
                    assert(is_first_match(spec_sink_names(self.handles@), event.name@, i as int));
                    lemma_first_match_is_spec(spec_sink_names(self.handles@), event.name@, i as int);
                }
                let ghost h0 = self.handles@[i as int];
                self.handles[i].fade = Some(VolumeFade::begin(event));
                proof {
                    assert(self.handles@ =~= old(self).handles@.update(
                        i as int,
                        (SinkHandle {
                            fade: Some(
                                (VolumeFade {
                                    start: event.start,
                                    end: event.end,
                                    duration_ms: event.duration_ms,
                                    elapsed_ms: 0,
                                }),
                            ),
                            ..h0
                        }),
                    ));
                    assert(self.wf());
                }
                return Ok(());
            }
            i += 1;
        }
        proof {
            assert forall|k: int| !is_first_match(spec_sink_names(self.handles@), event.name@, k) by {
                if 0 <= k < self.handles@.len() {
                    assert(spec_sink_names(self.handles@)[k] == self.handles@[k].spec_name_view());
                }
            }
        }
        Err(AudioError::NoSuchNamedHandle)
    }

    /// One tick of maintenance, in the required order: first advance
    /// every fade and write its recomputed amplitude straight to the
    /// sink's volume control, then poll each sink for the empty
    /// condition and destroy finished handles. The returned actions
    /// are in that order: the volume writes, then the drops.
    pub fn tick(&mut self, delta_ms: u64) -> (acts: Vec<SinkAction>)
        requires
            old(self).wf(),
        ensures
            final(self).wf(),
            final(self).next_sink == old(self).next_sink,
            final(self).handles@ == spec_sink_surviving(old(self).handles@, delta_ms as int),
            acts@ == spec_sink_fade_acts(old(self).handles@, delta_ms as int)
                + spec_sink_drop_acts(old(self).handles@, delta_ms as int),
    {
        let ghost s0 = old(self).handles@;
        let ghost d = delta_ms as int;
        let mut acts: Vec<SinkAction> = Vec::new();
        let n = self.handles.len();
        let mut i: usize = 0;
        while i < n
            invariant
                n == s0.len(),
                s0 == old(self).handles@,
                d == delta_ms as int,
                i <= n,
                self.next_sink == old(self).next_sink,
                self.handles@.len() == n,
                forall|j: int| i <= j < n ==> self.handles@[j] == s0[j],
                forall|j: int| 0 <= j < i ==> self.handles@[j] == spec_sink_after(s0[j], d),
                acts@ == spec_sink_fade_acts(s0.take(i as int), d),
            decreases n - i,
        {
            proof {
                assert(s0.take(i as int + 1).drop_last() =~= s0.take(i as int));
                assert(s0.take(i as int + 1).last() == s0[i as int]);
            }
            let e0 = self.handles[i].elapsed_ms;
            self.handles[i].elapsed_ms = saturating_add_ms(e0, delta_ms);
            match self.handles[i].fade {
                Some(f0) => {
                    let mut f = f0;
                    f.tick(delta_ms);
                    let v = f.current_volume();
                    self.handles[i].volume = v;
                    acts.push(
                        SinkAction::SetSinkVolume {
                            sink: self.handles[i].sink,
                            amp_micro: linear_to_amp_micro(v),
                        },
                    );
                    self.handles[i].fade = if f.finished() {
                        None
                    } else {
                        Some(f)
                    };
                    proof {
                        assert(self.handles@[i as int] == spec_sink_after(s0[i as int], d));
                        assert(acts@ =~= spec_sink_fade_acts(s0.take(i as int + 1), d));
                    }
                },
                None => {
                    proof {
                        assert(self.handles@[i as int] == spec_sink_after(s0[i as int], d));
                        assert(acts@ == spec_sink_fade_acts(s0.take(i as int + 1), d));
                    }
                },
            }
            i += 1;
        }
        proof {
            assert(s0.take(n as int) =~= s0);
        }
        let mut kept: Vec<SinkHandle> = Vec::new();
        let mut k: usize = 0;
        while k < n
            invariant
                n == s0.len(),
                s0 == old(self).handles@,
                d == delta_ms as int,
                k <= n,
                self.next_sink == old(self).next_sink,
                self.handles@.len() == n - k,
                forall|j: int| 0 <= j < n - k ==> self.handles@[j] == spec_sink_after(s0[j + k], d),
                kept@ == spec_sink_surviving(s0.take(k as int), d),
                acts@ == spec_sink_fade_acts(s0, d) + spec_sink_drop_acts(s0.take(k as int), d),
            decreases n - k,
        {
            proof {
                assert(s0.take(k as int + 1).drop_last() =~= s0.take(k as int));
                assert(s0.take(k as int + 1).last() == s0[k as int]);
            }
            let ghost rem0 = self.handles@;
            let h = self.handles.remove(0);
            proof {
                assert(h == spec_sink_after(s0[k as int], d));
                assert(self.handles@ =~= rem0.drop_first());
                assert forall|j: int| 0 <= j < n - (k + 1) implies self.handles@[j]
                    == spec_sink_after(s0[j + k + 1], d) by {
                    assert(self.handles@[j] == rem0[j + 1]);
                }
            }
            let stopped = match h.nominal_ms {
                Some(nominal) => h.elapsed_ms >= nominal,
                None => false,
            };
            proof {
                assert(stopped == spec_sink_stopped(spec_sink_after(s0[k as int], d)));
            }
            if stopped {
                acts.push(SinkAction::DropSink { sink: h.sink });
                proof {
                    assert(acts@ =~= spec_sink_fade_acts(s0, d) + spec_sink_drop_acts(
                        s0.take(k as int + 1),
                        d,
                    ));
                }
            } else {
                kept.push(h);
                proof {
                    assert(kept@ =~= spec_sink_surviving(s0.take(k as int + 1), d));
                }
            }
            k += 1;
        }
        proof {
            assert(s0.take(n as int) =~= s0);
        }
        self.handles = kept;
        proof {
            lemma_sink_surviving_ids(s0, d);
            assert forall|i: int|
                0 <= i < self.handles@.len() implies (#[trigger] self.handles@[i]).sink
                < self.next_sink by {
                assert(spec_sink_id_present(s0, self.handles@[i].sink));
                let k = choose|k: int|
                    0 <= k < s0.len() && (#[trigger] s0[k].sink) == self.handles@[i].sink;
            }
            assert(self.wf());
        }
        acts
    }
}

/// A sink whose empty condition does not hold this tick survives it:
/// maintenance keeps the handle, with its time and tween advanced.
pub proof fn lemma_sink_surviving_membership(s: Seq<SinkHandle>, delta: int, i: int)
    requires
        0 <= i < s.len(),
        !spec_sink_stopped(spec_sink_after(s[i], delta)),
    ensures
        exists|j: int|
            0 <= j < spec_sink_surviving(s, delta).len() && spec_sink_surviving(s, delta)[j]
                == spec_sink_after(s[i], delta),
    decreases s.len(),
{
    let prefix = spec_sink_surviving(s.drop_last(), delta);
    if i == s.len() - 1 {
        assert(s.last() == s[i]);
        assert(spec_sink_surviving(s, delta)[prefix.len() as int] == spec_sink_after(s[i], delta));
    } else {
        assert(s.drop_last()[i] == s[i]);
        lemma_sink_surviving_membership(s.drop_last(), delta, i);
        let j = choose|j: int|
            0 <= j < prefix.len() && prefix[j] == spec_sink_after(s.drop_last()[i], delta);
        assert(spec_sink_surviving(s, delta)[j] == spec_sink_after(s[i], delta));
    }
}

/// A non-looping sink is never destroyed before its nominal duration
/// has elapsed.
pub proof fn lemma_sink_not_reaped_before_nominal(s: Seq<SinkHandle>, delta: int, i: int)
    requires
        0 <= i < s.len(),
        s[i].nominal_ms is Some,
        spec_sink_after(s[i], delta).elapsed_ms < s[i].nominal_ms->Some_0,
    ensures
        exists|j: int|
            0 <= j < spec_sink_surviving(s, delta).len() && spec_sink_surviving(s, delta)[j]
                == spec_sink_after(s[i], delta),
{
    lemma_sink_surviving_membership(s, delta, i);
}

/// A looping sink (no nominal end) is never reaped by natural
/// completion: every tick keeps it, and it stays endless.
pub proof fn lemma_sink_looping_never_reaped(s: Seq<SinkHandle>, delta: int, i: int)
    requires
        0 <= i < s.len(),
        s[i].nominal_ms is None,
    ensures
        !spec_sink_stopped(spec_sink_after(s[i], delta)),
        spec_sink_after(s[i], delta).nominal_ms is None,
        exists|j: int|
            0 <= j < spec_sink_surviving(s, delta).len() && spec_sink_surviving(s, delta)[j]
                == spec_sink_after(s[i], delta),
{
    lemma_sink_surviving_membership(s, delta, i);
}

/// Once a sink's empty condition holds, the tick that observes it
/// destroys the sink.
pub proof fn lemma_sink_stopped_dropped(s: Seq<SinkHandle>, delta: int, i: int)
    requires
        0 <= i < s.len(),
        spec_sink_stopped(spec_sink_after(s[i], delta)),
    ensures
        exists|j: int|
            0 <= j < spec_sink_drop_acts(s, delta).len() && spec_sink_drop_acts(s, delta)[j] == (
            SinkAction::DropSink { sink: s[i].sink }),
    decreases s.len(),
{
    let prefix = spec_sink_drop_acts(s.drop_last(), delta);
    if i == s.len() - 1 {
        assert(s.last() == s[i]);
        assert(spec_sink_drop_acts(s, delta)[prefix.len() as int] == (SinkAction::DropSink {
            sink: s[i].sink,
        }));
    } else {
        assert(s.drop_last()[i] == s[i]);
        lemma_sink_stopped_dropped(s.drop_last(), delta, i);
        let j = choose|j: int|
            0 <= j < prefix.len() && prefix[j] == (SinkAction::DropSink {
                sink: s.drop_last()[i].sink,
            });
        assert(spec_sink_drop_acts(s, delta)[j] == (SinkAction::DropSink { sink: s[i].sink }));
    }
}

/// Cross-backend parity at creation: for a fixed `(volume, position)`
/// intent realized by both backends, the amplitude the buffer backend
/// hands its sink equals the graph engine's linear-to-amplitude
/// conversion of the linear volume the graph backend configures —
/// exactly, not merely within tolerance, because both route through
/// the one conversion law.
pub proof fn lemma_cross_backend_parity(
    event: AudioEvent,
    info: SampleInfo,
    worker: usize,
    sink: usize,
)
    ensures
        spec_new_sink(event, info, sink).volume == crate::graph::spec_new_handle(
            event,
            info,
            worker,
        ).volume,
        spec_amp_micro(spec_new_sink(event, info, sink).volume as int) == spec_amp_micro(
            crate::graph::spec_new_handle(event, info, worker).volume as int,
        ),
{
}

/// Cross-backend parity during a fade: two handles carrying the same
/// tween prescribe the same linear volume after any tick, so the
/// amplitudes the two backends apply agree exactly.
pub proof fn lemma_cross_backend_fade_parity(
    gh: crate::graph::GraphHandle,
    sh: SinkHandle,
    delta: int,
)
    requires
        gh.fade == sh.fade,
        gh.volume == sh.volume,
    ensures
        spec_sink_after(sh, delta).volume == crate::graph::spec_after(gh, delta).volume,
        spec_amp_micro(spec_sink_after(sh, delta).volume as int) == spec_amp_micro(
            crate::graph::spec_after(gh, delta).volume as int,
        ),
{
}

/// Some handle in `s` owns this sink id.
pub open spec fn spec_sink_id_present(s: Seq<SinkHandle>, id: usize) -> bool {
    exists|k: int| 0 <= k < s.len() && (#[trigger] s[k].sink) == id
}

/// Maintenance never invents or duplicates a sink: every surviving
/// handle keeps a sink id that some original handle had, and the ids
/// stay pairwise distinct.
pub proof fn lemma_sink_surviving_ids(s: Seq<SinkHandle>, delta: int)
    requires
        forall|i: int, j: int| 0 <= i < j < s.len() ==> s[i].sink != s[j].sink,
    ensures
        forall|j: int|
            0 <= j < spec_sink_surviving(s, delta).len() ==> spec_sink_id_present(
                s,
                (#[trigger] spec_sink_surviving(s, delta)[j]).sink,
            ),
        forall|a: int, b: int|
            0 <= a < b < spec_sink_surviving(s, delta).len() ==> spec_sink_surviving(
                s,
                delta,
            )[a].sink != spec_sink_surviving(s, delta)[b].sink,
    decreases s.len(),
{
    if s.len() > 0 {
        lemma_sink_surviving_ids(s.drop_last(), delta);
        let sub = spec_sink_surviving(s.drop_last(), delta);
        let surv = spec_sink_surviving(s, delta);
        assert forall|j: int| 0 <= j < surv.len() implies spec_sink_id_present(
            s,
            (#[trigger] surv[j]).sink,
        ) by {
            if j < sub.len() {
                assert(spec_sink_id_present(s.drop_last(), sub[j].sink));
                let k0 = choose|k: int|
                    0 <= k < s.drop_last().len() && (#[trigger] s.drop_last()[k].sink)
                        == sub[j].sink;
                assert(s[k0].sink == surv[j].sink);
            } else {
                assert(surv[j] == spec_sink_after(s.last(), delta));
                assert(s[s.len() - 1].sink == surv[j].sink);
            }
        }
        assert forall|a: int, b: int| 0 <= a < b < surv.len() implies surv[a].sink
            != surv[b].sink by {
            if b < sub.len() {
            } else {
                assert(surv[b] == spec_sink_after(s.last(), delta));
                assert(spec_sink_id_present(s.drop_last(), sub[a].sink));
                let k0 = choose|k: int|
                    0 <= k < s.drop_last().len() && (#[trigger] s.drop_last()[k].sink)
                        == sub[a].sink;
                assert(sub[a].sink == s[k0].sink);
                assert(s[k0].sink != s[s.len() - 1].sink);
            }
        }
    }
}


/// One tick never adds a sink: at most the emptied ones disappear.
pub proof fn lemma_sink_surviving_len(s: Seq<SinkHandle>, delta: int)
    ensures
        spec_sink_surviving(s, delta).len() <= s.len(),
    decreases s.len(),
{
    if s.len() > 0 {
        lemma_sink_surviving_len(s.drop_last(), delta);
    }
}


/// A live handle's sink is never reused by a new intent: the next
/// intent gets the allocation counter's value, which no live handle
/// holds.
pub proof fn lemma_no_sink_reuse(b: BufferBackend)
    requires
        b.wf(),
    ensures
        forall|i: int|
            0 <= i < b.handles@.len() ==> (#[trigger] b.handles@[i]).sink != b.next_sink,
{
}

} // verus!
