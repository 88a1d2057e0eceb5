//! The graph backend: play intents realized on a pool of reusable
//! processing workers wired into spatial or volume effect chains.
//!
//! The mixing graph runs on a separate real-time thread that must
//! never block or allocate, so every parameter change is diffed
//! against the last pushed state and only the delta is queued; one
//! synchronization per tick hands the queued diffs to the audio
//! thread. This module is the tick-side state machine: it decides
//! which worker serves an intent, what each handle's volume is, and
//! when a worker is released, and returns those decisions as
//! [`GraphAction`] values for the engine driver to perform.

use vstd::prelude::*;

verus! {

use crate::AudioError;
use crate::catalog::SampleInfo;
use crate::catalog::SampleMap;
use crate::events::AudioEvent;
use crate::events::VolumeFadeEvent;
use crate::fade::VolumeFade;
use crate::pool::WorkerPool;
use crate::router::has_match;
use crate::router::is_first_match;
use crate::router::lemma_first_match_is_spec;
use crate::router::spec_first_match;
use crate::units::saturating_add_ms;
use crate::units::saturating_sub_ms;
use crate::units::scale_duration_ms;
use crate::units::spec_scaled_duration;

/// Fixed number of concurrent workers in each pool.
pub const POOL_CAPACITY: usize = 24;

/// Grace period before a fresh handle becomes eligible for stopped
/// polling: worker state changes are asynchronous relative to the
/// message that requests them, and polling too early could reap a
/// handle that has not yet started.
pub const GRACE_MS: u64 = 250;

/// The lifecycle of a live playback handle. A fresh handle is pending
/// until its grace period ends (its worker's start is asynchronous),
/// then active; once a non-looping sound's nominal duration has
/// elapsed it drains until the tick that polls and reaps it, after
/// which the handle no longer exists.
#[derive(Clone, Copy, Debug, PartialEq, Eq, Structural)]
pub enum HandleState {
    /// Started, but within the grace period that defers polling.
    Pending,
    /// Playing, eligible for stopped polling.
    Active,
    /// Past its nominal length; the next poll reaps it.
    Draining,
}

/// One in-flight sound on the graph engine: a pooled worker plus the
/// tick-side parameter state that is diffed before every push.
#[derive(Clone, Debug)]
pub struct GraphHandle {
    /// The worker slot this handle owns in its pool.
    pub worker: usize,
    /// Whether the handle plays through the spatial-chain pool
    /// (`true`) or the volume-chain pool (`false`).
    pub spatial: bool,
    /// Optional logical name for fade routing.
    pub name: Option<String>,
    /// Whether the worker repeats endlessly.
    pub looping: bool,
    /// Remaining grace before stopped polling is allowed, in ms.
    pub grace_ms: u64,
    /// Time since the worker was started, in ms.
    pub elapsed_ms: u64,
    /// When the engine reports the sound stopped: the sample's nominal
    /// duration scaled by speed. `None` means the worker never stops
    /// on its own (a looping sound, or zero speed).
    pub nominal_ms: Option<u64>,
    /// Tick-side linear volume in milli-units.
    pub volume: u32,
    /// The last volume made visible to the audio thread.
    pub synced_volume: u32,
    /// A diff for `volume` is queued for the next flush.
    pub dirty: bool,
    /// The active volume tween, if any.
    pub fade: Option<VolumeFade>,
}

impl GraphHandle {
    /// The handle's logical name, as a view.
    pub open spec fn spec_name_view(self) -> Option<Seq<char>> {
        match self.name {
            Some(n) => Some(n@),
            None => None,
        }
    }

    /// The sound has played for its whole nominal length (never true
    /// of an endless handle).
    pub open spec fn spec_past_nominal(self) -> bool {
        match self.nominal_ms {
            Some(n) => self.elapsed_ms >= n,
            None => false,
        }
    }

    /// Where the handle stands in its lifecycle; the fourth stage,
    /// reaped, is the handle no longer existing.
    pub open spec fn spec_state(self) -> HandleState {
        if !self.spec_past_nominal() {
            if self.grace_ms > 0 {
                HandleState::Pending
            } else {
                HandleState::Active
            }
        } else {
            HandleState::Draining
        }
    }

    /// Where the handle stands in its lifecycle.
    pub fn state(&self) -> (r: HandleState)
        ensures
            r == self.spec_state(),
    {
        let past = match self.nominal_ms {
            Some(n) => self.elapsed_ms >= n,
            None => false,
        };
        if !past {
            if self.grace_ms > 0 {
                HandleState::Pending
            } else {
                HandleState::Active
            }
        } else {
            HandleState::Draining
        }
    }

    /// With no diff queued, the audio thread already has the tick-side
    /// volume.
    pub open spec fn diff_consistent(self) -> bool {
        !self.dirty ==> self.synced_volume == self.volume
    }
}

/// The logical names of a handle sequence, first to last.
pub open spec fn spec_names(s: Seq<GraphHandle>) -> Seq<Option<Seq<char>>> {
    s.map_values(|h: GraphHandle| h.spec_name_view())
}

/// What the engine driver must perform against the real graph after a
/// call into the backend.
#[derive(Clone, Debug, PartialEq)]
pub enum GraphAction {
    /// Configure the given worker with the sample, loop mode and
    /// speed, apply the initial volume (and spatial offset) through
    /// its effect chain, and start playback.
    StartWorker {
        /// The acquired worker slot.
        worker: usize,
        /// Spatial-chain pool when `true`, volume-chain pool otherwise.
        spatial: bool,
        /// Catalog id of the sample to play.
        sample: String,
        /// Repeat endlessly instead of playing once.
        looping: bool,
        /// Playback speed in milli-units.
        speed: u32,
        /// Linear volume in milli-units.
        volume: u32,
        /// 2D offset in milli-meters for spatial plays.
        position: Option<(i64, i64)>,
    },
    /// Push one diffed volume change to the worker's effect chain.
    PushVolume {
        /// The worker slot the diff addresses.
        worker: usize,
        /// Which pool the worker belongs to.
        spatial: bool,
        /// The new linear volume in milli-units.
        volume: u32,
    },
    /// Stop the worker and give its slot back to the pool.
    ReleaseWorker {
        /// The worker slot to stop and free.
        worker: usize,
        /// Which pool the worker belongs to.
        spatial: bool,
    },
}

/// The handle a play intent creates once a worker is acquired.
pub open spec fn spec_new_handle(event: AudioEvent, info: SampleInfo, worker: usize) -> GraphHandle {
    GraphHandle {
        worker,
        spatial: event.position is Some,
        name: event.name,
        looping: event.looping,
        grace_ms: GRACE_MS,
        elapsed_ms: 0,
        nominal_ms: if event.looping || event.speed == 0 {
            None
        } else {
            Some(spec_scaled_duration(info.spec_duration_ms(), event.speed as int) as u64)
        },
        volume: event.volume,
        synced_volume: event.volume,
        dirty: false,
        fade: None,
    }
}

/// A handle after one tick's worth of time: the grace timer runs
/// down and the elapsed timer runs up.
pub open spec fn spec_timed(h: GraphHandle, delta: int) -> GraphHandle {
    GraphHandle {
        grace_ms: if h.grace_ms - delta >= 0 {
            (h.grace_ms - delta) as u64
        } else {
            0u64
        },
        elapsed_ms: if h.elapsed_ms + delta > u64::MAX {
            u64::MAX
        } else {
            (h.elapsed_ms + delta) as u64
        },
        ..h
    }
}

/// Whether a (timed) handle's worker now reports stopped: only after
/// the grace period, and only once a non-endless sound's nominal
/// duration has elapsed. An endless handle never stops on its own.
pub open spec fn spec_stopped(h: GraphHandle) -> bool {
    &&& h.grace_ms == 0
    &&& match h.nominal_ms {
        Some(n) => h.elapsed_ms >= n,
        None => false,
    }
}

/// Advance a (timed) handle's tween, if it carries one: the tween's
/// timer ticks, the prescribed volume is written through the diff
/// mechanism, and a completed tween is removed from the handle.
pub open spec fn spec_fade_step(h: GraphHandle, delta: int) -> GraphHandle {
    match h.fade {
        None => h,
        Some(f0) => {
            let f = VolumeFade {
                elapsed_ms: if f0.elapsed_ms + delta > u64::MAX {
                    u64::MAX
                } else {
                    (f0.elapsed_ms + delta) as u64
                },
                ..f0
            };
            let v = f.spec_current() as u32;
            GraphHandle {
                volume: v,
                dirty: h.dirty || v != h.volume,
                fade: if f.spec_finished() {
                    None
                } else {
                    Some(f)
                },
                ..h
            }
        },
    }
}

/// One tick's time-and-fade maintenance for a surviving handle.
pub open spec fn spec_after(h: GraphHandle, delta: int) -> GraphHandle {
    spec_fade_step(spec_timed(h, delta), delta)
}

/// The handles that survive one tick, in order, with their time and
/// fades advanced (before the end-of-tick flush).
pub open spec fn spec_surviving(s: Seq<GraphHandle>, delta: int) -> Seq<GraphHandle>
    decreases s.len(),
{
    if s.len() == 0 {
        Seq::empty()
    } else {
        let prefix = spec_surviving(s.drop_last(), delta);
        if spec_stopped(spec_timed(s.last(), delta)) {
            prefix
        } else {
            prefix.push(spec_after(s.last(), delta))
        }
    }
}

/// The release actions one tick emits: one per reaped handle, in
/// handle order.
pub open spec fn spec_release_acts(s: Seq<GraphHandle>, delta: int) -> Seq<GraphAction>
    decreases s.len(),
{
    if s.len() == 0 {
        Seq::empty()
    } else {
        let prefix = spec_release_acts(s.drop_last(), delta);
        if spec_stopped(spec_timed(s.last(), delta)) {
            prefix.push(
                (GraphAction::ReleaseWorker { worker: s.last().worker, spatial: s.last().spatial }),
            )
        } else {
            prefix
        }
    }
}

/// A handle once the tick's flush has made its volume visible to the
/// audio thread.
pub open spec fn spec_flushed(h: GraphHandle) -> GraphHandle {
    GraphHandle { synced_volume: h.volume, dirty: false, ..h }
}

/// All surviving handles after the flush.
pub open spec fn spec_flush_handles(s: Seq<GraphHandle>) -> Seq<GraphHandle> {
    s.map_values(|h: GraphHandle| spec_flushed(h))
}

/// The diffs the flush hands to the audio thread: one volume push per
/// dirty handle, in handle order — an unchanged volume is never
/// re-sent.
pub open spec fn spec_flush_acts(s: Seq<GraphHandle>) -> Seq<GraphAction>
    decreases s.len(),
{
    if s.len() == 0 {
        Seq::empty()
    } else {
        let prefix = spec_flush_acts(s.drop_last());
        if s.last().dirty {
            prefix.push(
                (GraphAction::PushVolume {
                    worker: s.last().worker,
                    spatial: s.last().spatial,
                    volume: s.last().volume,
                }),
            )
        } else {
            prefix
        }
    }
}

/// The graph backend's tick-side state: two fixed pools and the live
/// handles.
#[derive(Debug)]
pub struct GraphBackend {
    /// Pool of workers wired into spatialization chains.
    pub spatial_pool: WorkerPool,
    /// Pool of workers wired into plain gain chains.
    pub volume_pool: WorkerPool,
    /// All live playback handles, oldest first.
    pub handles: Vec<GraphHandle>,
}

impl GraphBackend {
    /// The handle's worker slot is marked in use in its pool.
    pub open spec fn handle_slot_live(self, h: GraphHandle) -> bool {
        if h.spatial {
            self.spatial_pool.slot_in_use(h.worker as int)
        } else {
            self.volume_pool.slot_in_use(h.worker as int)
        }
    }

    /// Every live handle owns its slot exclusively, and no diff is
    /// silently dropped: a clean handle's pushed volume matches its
    /// tick-side volume.
    pub open spec fn wf(self) -> bool {
        &&& forall|i: int|
            0 <= i < self.handles@.len() ==> self.handle_slot_live(#[trigger] self.handles@[i])
        &&& forall|i: int, j: int|
            0 <= i < j < self.handles@.len() && self.handles@[i].spatial
                == self.handles@[j].spatial ==> self.handles@[i].worker != self.handles@[j].worker
        &&& forall|i: int| 0 <= i < self.handles@.len() ==> (#[trigger] self.handles@[i]).diff_consistent()
    }

    /// The pool an intent draws from: spatial when a position is set.
    pub open spec fn spec_pool_for(self, spatial: bool) -> WorkerPool {
        if spatial {
            self.spatial_pool
        } else {
            self.volume_pool
        }
    }

    /// A fresh backend: both pools at full capacity, no live handles.
    pub fn new() -> (r: Self)
        ensures
            r.wf(),
            r.handles@.len() == 0,
            r.spatial_pool.spec_capacity() == POOL_CAPACITY,
            r.volume_pool.spec_capacity() == POOL_CAPACITY,
            forall|i: int| 0 <= i < POOL_CAPACITY ==> !r.spatial_pool.spec_slots()[i],
            forall|i: int| 0 <= i < POOL_CAPACITY ==> !r.volume_pool.spec_slots()[i],
    {
        GraphBackend {
            spatial_pool: WorkerPool::new(POOL_CAPACITY),
            volume_pool: WorkerPool::new(POOL_CAPACITY),
            handles: Vec::new(),
        }
    }

    /// Realize a play intent: resolve the sample, acquire a worker
    /// from the pool the intent's position selects, and record the
    /// handle with its grace timer. The returned action tells the
    /// driver to configure and start the worker. An unknown sample or
    /// an exhausted pool is surfaced at once and mutates nothing.
    pub fn trigger(&mut self, event: &AudioEvent, catalog: &SampleMap) -> (r: Result<
        GraphAction,
        AudioError,
    >)
        requires
            old(self).wf(),
            catalog.wf(),
        ensures
            final(self).wf(),
            final(self).spatial_pool.spec_capacity() == old(self).spatial_pool.spec_capacity(),
            final(self).volume_pool.spec_capacity() == old(self).volume_pool.spec_capacity(),
            (r is Ok) == (catalog.spec_get(event.sample@) is Some && !old(self).spec_pool_for(
                event.position is Some,
            ).all_in_use()),
            match r {
                Ok(act) => {
                    &&& catalog.spec_get(event.sample@) is Some
                    &&& (act matches GraphAction::StartWorker {
                        worker,
                        spatial,
                        sample,
                        looping,
                        speed,
                        volume,
                        position,
                    } && {
                        &&& spatial == (event.position is Some)
                        &&& sample@ == event.sample@
                        &&& looping == event.looping
                        &&& speed == event.speed
                        &&& volume == event.volume
                        &&& position == event.position
                        &&& old(self).spec_pool_for(spatial).is_first_free(worker as int)
                        &&& final(self).handles@ == old(self).handles@.push(
                            spec_new_handle(*event, catalog.spec_get(event.sample@)->Some_0, worker),
                        )
                        &&& final(self).spec_pool_for(spatial).spec_slots() == old(
                            self,
                        ).spec_pool_for(spatial).spec_slots().update(worker as int, true)
                        &&& final(self).spec_pool_for(!spatial) == old(self).spec_pool_for(!spatial)
                    })
                },
                Err(e) => {
                    &&& *final(self) == *old(self)
                    &&& (e == AudioError::UnknownSample || e == AudioError::PoolExhausted)
                    &&& ((e == AudioError::UnknownSample) <==> catalog.spec_get(event.sample@) is None)
                    &&& (e == AudioError::PoolExhausted ==> old(self).spec_pool_for(
                        event.position is Some,
                    ).all_in_use())
                },
            },
    {
        let info = match catalog.get(&event.sample) {
            Some(info) => info,
            None => {
                return Err(AudioError::UnknownSample);
            },
        };
        let nominal: Option<u64> = if event.looping || event.speed == 0 {
            None
        } else {
            Some(scale_duration_ms(info.duration_ms(), event.speed))
        };
        let spatial = event.position.is_some();
        let worker = if spatial {
            match self.spatial_pool.acquire() {
                Ok(w) => w,
                Err(e) => {
                    return Err(e);
                },
            }
        } else {
            match self.volume_pool.acquire() {
                Ok(w) => w,
                Err(e) => {
                    return Err(e);
                },
            }
        };
        let name: Option<String> = match &event.name {
            Some(n) => Some(n.clone()),
            None => None,
        };
        let handle = GraphHandle {
            worker,
            spatial,
            name,
            looping: event.looping,
            grace_ms: GRACE_MS,
            elapsed_ms: 0,
            nominal_ms: nominal,
            volume: event.volume,
            synced_volume: event.volume,
            dirty: false,
            fade: None,
        };
        proof {
            assert(handle == spec_new_handle(*event, info, worker));
        }
        self.handles.push(handle);
        proof {
            assert(self.handles@ =~= old(self).handles@.push(
                spec_new_handle(*event, info, worker),
            ));
            assert forall|i: int| 0 <= i < self.handles@.len() implies self.handle_slot_live(
                #[trigger] self.handles@[i],
            ) by {
                if i < old(self).handles@.len() {
                    assert(old(self).handle_slot_live(old(self).handles@[i]));
                }
            }
            assert(self.wf());
        }
        Ok(
            GraphAction::StartWorker {
                worker,
                spatial,
                sample: event.sample.clone(),
                looping: event.looping,
                speed: event.speed,
                volume: event.volume,
                position: event.position,
            },
        )
    }

    /// Route a fade intent: scan the live handles for the first one
    /// whose logical name matches and attach a fresh tween to it,
    /// overwriting any prior unfinished one. With no live match the
    /// fade is dropped and `NoSuchNamedHandle` surfaces; nothing is
    /// mutated.
    pub fn fade(&mut self, event: &VolumeFadeEvent) -> (r: Result<(), AudioError>)
        requires
            old(self).wf(),
        ensures
            final(self).wf(),
            final(self).spatial_pool == old(self).spatial_pool,
            final(self).volume_pool == old(self).volume_pool,
            (r is Ok) == has_match(spec_names(old(self).handles@), event.name@),
            match r {
                Ok(_) => {
                    &&& spec_first_match(spec_names(old(self).handles@), event.name@) is Some
                    &&& ({
                        let i = spec_first_match(spec_names(old(self).handles@), event.name@)->Some_0;
                        final(self).handles@ == old(self).handles@.update(
                            i,
                            (GraphHandle {
                                fade: Some(
                                    (VolumeFade {
                                        start: event.start,
                                        end: event.end,
                                        duration_ms: event.duration_ms,
                                        elapsed_ms: 0,
                                    }),
                                ),
                                ..old(self).handles@[i]
                            }),
                        )
                    })
                },
                Err(e) => {
                    &&& e == AudioError::NoSuchNamedHandle
                    &&& *final(self) == *old(self)
                },
            },
    {
        let n = self.handles.len();
        let mut i: usize = 0;
        while i < n
            invariant
                self == old(self),
                old(self).wf(),
                n == self.handles@.len(),
                i <= n,
                forall|j: int|
                    0 <= j < i ==> (#[trigger] self.handles@[j]).spec_name_view() != Some(
                        event.name@,
                    ),
            decreases n - i,
        {
            let found = match &self.handles[i].name {
                Some(handle_name) => *handle_name == event.name,
                None => false,
            };
            if found {
                proof {
                    assert(spec_names(self.handles@)[i as int] == self.handles@[i as int].spec_name_view());
                    assert forall|j: int| 0 <= j < i implies spec_names(self.handles@)[j] != Some(
                        event.name@,
                    ) by {
                        assert(spec_names(self.handles@)[j] == self.handles@[j].spec_name_view());
                    }
                    assert(is_first_match(spec_names(self.handles@), event.name@, i as int));
                    lemma_first_match_is_spec(spec_names(self.handles@), event.name@, i as int);
                }
                let ghost h0 = self.handles@[i as int];
                self.handles[i].fade = Some(VolumeFade::begin(event));
                proof {
                    assert(self.handles@ =~= old(self).handles@.update(
                        i as int,
                        (GraphHandle {
                            fade: Some(
                                (VolumeFade {
                                    start: event.start,
                                    end: event.end,
                                    duration_ms: event.duration_ms,
                                    elapsed_ms: 0,
                                }),
                            ),
                            ..h0
                        }),
                    ));
                    assert forall|k: int| 0 <= k < self.handles@.len() implies self.handle_slot_live(
                        #[trigger] self.handles@[k],
                    ) by {
                        assert(old(self).handle_slot_live(old(self).handles@[k]));
                    }
                    assert(self.wf());
                }
                return Ok(());
            }
            i += 1;
        }
        proof {
            assert forall|k: int| !is_first_match(spec_names(self.handles@), event.name@, k) by {
                if 0 <= k < self.handles@.len() {
                    assert(spec_names(self.handles@)[k] == self.handles@[k].spec_name_view());
                }
            }
        }
        Err(AudioError::NoSuchNamedHandle)
    }

    /// One tick of maintenance, in the required order: (a) poll each
    /// live handle past its grace period and release stopped workers
    /// back to their pool, destroying the handle; (b) advance fades,
    /// writing each new volume through the diff mechanism and dropping
    /// completed tweens; (c) flush all queued diffs to the real-time
    /// audio thread in a single synchronization. The returned actions
    /// are in exactly that order: the releases, then the flushed
    /// pushes.
    pub fn tick(&mut self, delta_ms: u64) -> (acts: Vec<GraphAction>)
        requires
            old(self).wf(),
        ensures
            final(self).wf(),
            final(self).spatial_pool.spec_capacity() == old(self).spatial_pool.spec_capacity(),
            final(self).volume_pool.spec_capacity() == old(self).volume_pool.spec_capacity(),
            final(self).handles@ == spec_flush_handles(
                spec_surviving(old(self).handles@, delta_ms as int),
            ),
            acts@ == spec_release_acts(old(self).handles@, delta_ms as int) + spec_flush_acts(
                spec_surviving(old(self).handles@, delta_ms as int),
            ),
    {
        let ghost s0 = old(self).handles@;
        let ghost d = delta_ms as int;
        let mut acts: Vec<GraphAction> = Vec::new();
        let mut kept: Vec<GraphHandle> = Vec::new();
        let n = self.handles.len();
        let mut i: usize = 0;
        while i < n
            invariant
                n == s0.len(),
                s0 == old(self).handles@,
                d == delta_ms as int,
                i <= n,
                self.handles@ == s0.skip(i as int),
                kept@ == spec_surviving(s0.take(i as int), d),
                acts@ == spec_release_acts(s0.take(i as int), d),
                self.spatial_pool.spec_capacity() == old(self).spatial_pool.spec_capacity(),
                self.volume_pool.spec_capacity() == old(self).volume_pool.spec_capacity(),
                forall|j: int| 0 <= j < kept@.len() ==> self.handle_slot_live(#[trigger] kept@[j]),
                forall|j: int|
                    0 <= j < self.handles@.len() ==> self.handle_slot_live(
                        #[trigger] self.handles@[j],
                    ),
                forall|a: int, b: int|
                    0 <= a < b < kept@.len() && kept@[a].spatial == kept@[b].spatial
                        ==> kept@[a].worker != kept@[b].worker,
                forall|a: int, b: int|
                    0 <= a < kept@.len() && 0 <= b < self.handles@.len() && kept@[a].spatial
                        == self.handles@[b].spatial ==> kept@[a].worker != self.handles@[b].worker,
                forall|a: int, b: int|
                    0 <= a < b < self.handles@.len() && self.handles@[a].spatial
                        == self.handles@[b].spatial ==> self.handles@[a].worker
                        != self.handles@[b].worker,
            decreases n - i,
        {
            let ghost remaining0 = self.handles@;
            let mut h = self.handles.remove(0);
            proof {
                assert(h == s0[i as int]);
                assert(self.handles@ =~= s0.skip(i as int + 1));
            }
            h.grace_ms = saturating_sub_ms(h.grace_ms, delta_ms);
            h.elapsed_ms = saturating_add_ms(h.elapsed_ms, delta_ms);
            proof {
                assert(h == spec_timed(s0[i as int], d));
            }
            let stopped = h.grace_ms == 0 && (match h.nominal_ms {
                Some(nominal) => h.elapsed_ms >= nominal,
                None => false,
            });
            proof {
                assert(stopped == spec_stopped(spec_timed(s0[i as int], d)));
                assert(s0.take(i as int + 1).drop_last() =~= s0.take(i as int));
                assert(s0.take(i as int + 1).last() == s0[i as int]);
            }
            if stopped {
                proof {
                    assert(self.handle_slot_live(remaining0[0]));
                }
                if h.spatial {
                    self.spatial_pool.release(h.worker);
                } else {
                    self.volume_pool.release(h.worker);
                }
                acts.push(GraphAction::ReleaseWorker { worker: h.worker, spatial: h.spatial });
                proof {
                    assert(acts@ =~= spec_release_acts(s0.take(i as int + 1), d));
                    assert(kept@ == spec_surviving(s0.take(i as int + 1), d));
                    assert forall|j: int| 0 <= j < kept@.len() implies self.handle_slot_live(
                        #[trigger] kept@[j],
                    ) by {
                        assert(!(kept@[j].spatial == remaining0[0].spatial && kept@[j].worker
                            == remaining0[0].worker));
                    }
                    assert forall|j: int| 0 <= j < self.handles@.len() implies self.handle_slot_live(
                        #[trigger] self.handles@[j],
                    ) by {
                        assert(self.handles@[j] == remaining0[j + 1]);
                        assert(!(remaining0[j + 1].spatial == remaining0[0].spatial && remaining0[j
                            + 1].worker == remaining0[0].worker));
                    }
                }
            } else {
                match h.fade {
                    Some(f0) => {
                        let mut f = f0;
                        f.tick(delta_ms);
                        let v = f.current_volume();
                        if v != h.volume {
                            h.volume = v;
                            h.dirty = true;
                        }
                        h.fade = if f.finished() {
                            None
                        } else {
                            Some(f)
                        };
                    },
                    None => {},
                }
                proof {
                    assert(h == spec_after(s0[i as int], d));
                }
                kept.push(h);
                proof {
                    assert(kept@ =~= spec_surviving(s0.take(i as int + 1), d));
                    assert(acts@ == spec_release_acts(s0.take(i as int + 1), d));
                    assert forall|j: int|
                        0 <= j < self.handles@.len() implies self.handle_slot_live(
                        #[trigger] self.handles@[j],
                    ) by {
                        assert(self.handles@[j] == remaining0[j + 1]);
                    }
                }
            }
            i += 1;
        }
        proof {
            assert(s0.take(n as int) =~= s0);
        }
        let ghost kept1 = kept@;
        let ghost spat1 = self.spatial_pool;
        let ghost vol1 = self.volume_pool;
        let m = kept.len();
        let mut k: usize = 0;
        while k < m
            invariant
                m == kept1.len(),
                kept@.len() == m,
                k <= m,
                self.spatial_pool == spat1,
                self.volume_pool == vol1,
                s0 == old(self).handles@,
                d == delta_ms as int,
                kept1 == spec_surviving(s0, d),
                forall|j: int| k <= j < m ==> kept@[j] == kept1[j],
                forall|j: int| 0 <= j < k ==> kept@[j] == spec_flushed(kept1[j]),
                acts@ == spec_release_acts(s0, d) + spec_flush_acts(kept1.take(k as int)),
                forall|j: int|
                    0 <= j < m ==> (if kept1[j].spatial {
                        spat1.slot_in_use(kept1[j].worker as int)
                    } else {
                        vol1.slot_in_use(kept1[j].worker as int)
                    }),
                forall|a: int, b: int|
                    0 <= a < b < m && kept1[a].spatial == kept1[b].spatial ==> kept1[a].worker
                        != kept1[b].worker,
                spat1.spec_capacity() == old(self).spatial_pool.spec_capacity(),
                vol1.spec_capacity() == old(self).volume_pool.spec_capacity(),
            decreases m - k,
        {
            proof {
                assert(kept1.take(k as int + 1).drop_last() =~= kept1.take(k as int));
                assert(kept1.take(k as int + 1).last() == kept1[k as int]);
            }
            if kept[k].dirty {
                let w = kept[k].worker;
                let sp = kept[k].spatial;
                let v = kept[k].volume;
                acts.push(GraphAction::PushVolume { worker: w, spatial: sp, volume: v });
                proof {
                    assert(acts@ =~= spec_release_acts(s0, d) + spec_flush_acts(
                        kept1.take(k as int + 1),
                    ));
                }
            } else {
                proof {
                    assert(spec_flush_acts(kept1.take(k as int + 1)) == spec_flush_acts(
                        kept1.take(k as int),
                    ));
                }
            }
            let v2 = kept[k].volume;
            kept[k].synced_volume = v2;
            kept[k].dirty = false;
            proof {
                assert(kept@[k as int] == spec_flushed(kept1[k as int]));
            }
            k += 1;
        }
        proof {
            assert(kept1.take(m as int) =~= kept1);
            assert(kept@ =~= spec_flush_handles(kept1));
        }
        self.handles = kept;
        proof {
            assert forall|j: int| 0 <= j < self.handles@.len() implies self.handle_slot_live(
                #[trigger] self.handles@[j],
            ) by {
                assert(self.handles@[j] == spec_flushed(kept1[j]));
            }
            assert forall|a: int, b: int|
                0 <= a < b < self.handles@.len() && self.handles@[a].spatial
                    == self.handles@[b].spatial implies self.handles@[a].worker
                != self.handles@[b].worker by {
                assert(self.handles@[a] == spec_flushed(kept1[a]));
                assert(self.handles@[b] == spec_flushed(kept1[b]));
            }
            assert(self.wf());
        }
        acts
    }
}

/// A handle whose stop condition does not hold this tick survives it:
/// maintenance keeps the handle, with its time and tween advanced.
pub proof fn lemma_surviving_membership(s: Seq<GraphHandle>, delta: int, i: int)
    requires
        0 <= i < s.len(),
        !spec_stopped(spec_timed(s[i], delta)),
    ensures
        exists|j: int|
            0 <= j < spec_surviving(s, delta).len() && spec_surviving(s, delta)[j] == spec_after(
                s[i],
                delta,
            ),
    decreases s.len(),
{
    let prefix = spec_surviving(s.drop_last(), delta);
    if i == s.len() - 1 {
        assert(s.last() == s[i]);
        assert(spec_surviving(s, delta)[prefix.len() as int] == spec_after(s[i], delta));
    } else {
        assert(s.drop_last()[i] == s[i]);
        lemma_surviving_membership(s.drop_last(), delta, i);
        let j = choose|j: int|
            0 <= j < prefix.len() && prefix[j] == spec_after(s.drop_last()[i], delta);
        if spec_stopped(spec_timed(s.last(), delta)) {
            assert(spec_surviving(s, delta)[j] == spec_after(s[i], delta));
        } else {
            assert(spec_surviving(s, delta)[j] == spec_after(s[i], delta));
        }
    }
}

/// A non-looping handle is never reaped before its nominal duration
/// has elapsed: while the elapsed timer (with this tick's delta) is
/// still short of the nominal length, maintenance keeps the handle.
pub proof fn lemma_not_reaped_before_nominal(s: Seq<GraphHandle>, delta: int, i: int)
    requires
        0 <= i < s.len(),
        s[i].nominal_ms is Some,
        spec_timed(s[i], delta).elapsed_ms < s[i].nominal_ms->Some_0,
    ensures
        exists|j: int|
            0 <= j < spec_surviving(s, delta).len() && spec_surviving(s, delta)[j] == spec_after(
                s[i],
                delta,
            ),
{
    lemma_surviving_membership(s, delta, i);
}

/// A looping handle (no nominal end) is never reaped by natural
/// completion: every tick keeps it, and it stays endless, so this
/// holds for every later tick as well. Only an explicit external
/// despawn outside this core can end it.
pub proof fn lemma_looping_never_reaped(s: Seq<GraphHandle>, delta: int, i: int)
    requires
        0 <= i < s.len(),
        s[i].nominal_ms is None,
    ensures
        !spec_stopped(spec_timed(s[i], delta)),
        spec_after(s[i], delta).nominal_ms is None,
        exists|j: int|
            0 <= j < spec_surviving(s, delta).len() && spec_surviving(s, delta)[j] == spec_after(
                s[i],
                delta,
            ),
{
    lemma_surviving_membership(s, delta, i);
}

/// Once a handle's stop condition holds, the tick that observes it
/// releases the handle's worker back to its pool.
pub proof fn lemma_stopped_handle_released(s: Seq<GraphHandle>, delta: int, i: int)
    requires
        0 <= i < s.len(),
        spec_stopped(spec_timed(s[i], delta)),
    ensures
        exists|j: int|
            0 <= j < spec_release_acts(s, delta).len() && spec_release_acts(s, delta)[j] == (
            GraphAction::ReleaseWorker { worker: s[i].worker, spatial: s[i].spatial }),
    decreases s.len(),
{
    let prefix = spec_release_acts(s.drop_last(), delta);
    if i == s.len() - 1 {
        assert(s.last() == s[i]);
        assert(spec_release_acts(s, delta)[prefix.len() as int] == (GraphAction::ReleaseWorker {
            worker: s[i].worker,
            spatial: s[i].spatial,
        }));
    } else {
        assert(s.drop_last()[i] == s[i]);
        lemma_stopped_handle_released(s.drop_last(), delta, i);
        let j = choose|j: int|
            0 <= j < prefix.len() && prefix[j] == (GraphAction::ReleaseWorker {
                worker: s.drop_last()[i].worker,
                spatial: s.drop_last()[i].spatial,
            });
        assert(spec_release_acts(s, delta)[j] == (GraphAction::ReleaseWorker {
            worker: s[i].worker,
            spatial: s[i].spatial,
        }));
    }
}

/// Fade application is idempotent at completion. The tick on which a
/// tween's timer completes writes exactly the end volume and removes
/// the tween; after the flush, a second tick at the same state leaves
/// the volume untouched and queues no further push for it.
pub proof fn lemma_fade_completion_settles(h: GraphHandle, delta: int, later: int)
    requires
        h.fade is Some,
        h.fade->Some_0.elapsed_ms + delta >= h.fade->Some_0.duration_ms,
    ensures
        spec_after(h, delta).volume == h.fade->Some_0.end,
        spec_after(h, delta).fade is None,
        ({
            let settled = spec_flushed(spec_after(h, delta));
            &&& spec_after(settled, later).volume == h.fade->Some_0.end
            &&& spec_after(settled, later).synced_volume == h.fade->Some_0.end
            &&& !spec_after(settled, later).dirty
        }),
{
}


/// How many live handles play through the spatial pool.
pub open spec fn spec_spatial_count(s: Seq<GraphHandle>) -> nat
    decreases s.len(),
{
    if s.len() == 0 {
        0
    } else {
        spec_spatial_count(s.drop_last()) + if s.last().spatial {
            1nat
        } else {
            0nat
        }
    }
}

/// The worker slots the spatial handles occupy.
pub open spec fn spec_spatial_workers(s: Seq<GraphHandle>) -> Set<int>
    decreases s.len(),
{
    if s.len() == 0 {
        Set::empty()
    } else {
        let rest = spec_spatial_workers(s.drop_last());
        if s.last().spatial {
            rest.insert(s.last().worker as int)
        } else {
            rest
        }
    }
}

/// With distinct workers, the spatial handles occupy exactly as many
/// slots as there are spatial handles, and each occupied slot belongs
/// to one of them.
proof fn lemma_spatial_workers_facts(s: Seq<GraphHandle>)
    requires
        forall|a: int, b: int|
            0 <= a < b < s.len() && s[a].spatial == s[b].spatial ==> s[a].worker != s[b].worker,
    ensures
        spec_spatial_workers(s).finite(),
        spec_spatial_workers(s).len() == spec_spatial_count(s),
        forall|w: int|
            spec_spatial_workers(s).contains(w) ==> exists|i: int|
                0 <= i < s.len() && (#[trigger] s[i]).spatial && s[i].worker as int == w,
    decreases s.len(),
{
    if s.len() > 0 {
        assert(forall|a: int, b: int|
            0 <= a < b < s.drop_last().len() && s.drop_last()[a].spatial
                == s.drop_last()[b].spatial ==> s.drop_last()[a].worker
                != s.drop_last()[b].worker);
        lemma_spatial_workers_facts(s.drop_last());
        let rest = spec_spatial_workers(s.drop_last());
        let full = spec_spatial_workers(s);
        if s.last().spatial {
            if rest.contains(s.last().worker as int) {
                let i = choose|i: int|
                    0 <= i < s.drop_last().len() && (#[trigger] s.drop_last()[i]).spatial
                        && s.drop_last()[i].worker as int == s.last().worker as int;
                assert(s[i].spatial == s[s.len() - 1].spatial);
                assert(false);
            }
            vstd::set::axiom_set_insert_len(rest, s.last().worker as int);
            assert forall|w: int| full.contains(w) implies exists|i: int|
                0 <= i < s.len() && (#[trigger] s[i]).spatial && s[i].worker as int == w by {
                if w == s.last().worker as int {
                    assert(s[s.len() - 1].spatial && s[s.len() - 1].worker as int == w);
                } else {
                    let i = choose|i: int|
                        0 <= i < s.drop_last().len() && (#[trigger] s.drop_last()[i]).spatial
                            && s.drop_last()[i].worker as int == w;
                    assert(s[i].spatial && s[i].worker as int == w);
                }
            }
        } else {
            assert forall|w: int| full.contains(w) implies exists|i: int|
                0 <= i < s.len() && (#[trigger] s[i]).spatial && s[i].worker as int == w by {
                let i = choose|i: int|
                    0 <= i < s.drop_last().len() && (#[trigger] s.drop_last()[i]).spatial
                        && s.drop_last()[i].worker as int == w;
                assert(s[i].spatial && s[i].worker as int == w);
            }
        }
    }
}

/// The pool bound, by pigeonhole: once a well-formed backend carries
/// as many live spatial handles as the spatial pool has slots, every
/// slot is in use — so, by `trigger`'s contract, one more simultaneous
/// spatial play yields `PoolExhausted` while the live handles stay
/// untouched.
pub proof fn lemma_full_spatial_pool_exhausted(b: GraphBackend)
    requires
        b.wf(),
        spec_spatial_count(b.handles@) == b.spatial_pool.spec_capacity(),
    ensures
        b.spatial_pool.all_in_use(),
{
    let cap = b.spatial_pool.spec_capacity() as int;
    let w = spec_spatial_workers(b.handles@);
    lemma_spatial_workers_facts(b.handles@);
    assert forall|x: int| w.contains(x) implies 0 <= x < cap
        && b.spatial_pool.spec_slots()[x] by {
        let i = choose|i: int|
            0 <= i < b.handles@.len() && (#[trigger] b.handles@[i]).spatial
                && b.handles@[i].worker as int == x;
        assert(b.handle_slot_live(b.handles@[i]));
    }
    if !b.spatial_pool.all_in_use() {
        let free = choose|i: int| !(0 <= i < cap ==> b.spatial_pool.spec_slots()[i]);
        let range = vstd::set_lib::set_int_range(0, cap);
        vstd::set_lib::lemma_int_range(0, cap);
        let reduced = range.remove(free);
        assert(w.subset_of(reduced));
        vstd::set::axiom_set_remove_len(range, free);
        vstd::set_lib::lemma_len_subset(w, reduced);
        assert(false);
    }
}


/// Maintenance never changes what a handle is: its worker, pool,
/// name, loop mode and nominal length are preserved; only its timers,
/// volume and tween advance. With the survival laws this extends them
/// across any number of ticks.
pub proof fn lemma_after_preserves_identity(h: GraphHandle, delta: int)
    ensures
        spec_after(h, delta).worker == h.worker,
        spec_after(h, delta).spatial == h.spatial,
        spec_after(h, delta).name == h.name,
        spec_after(h, delta).looping == h.looping,
        spec_after(h, delta).nominal_ms == h.nominal_ms,
{
}


/// One tick never adds a handle: at most the reaped ones disappear.
pub proof fn lemma_surviving_len(s: Seq<GraphHandle>, delta: int)
    ensures
        spec_surviving(s, delta).len() <= s.len(),
    decreases s.len(),
{
    if s.len() > 0 {
        lemma_surviving_len(s.drop_last(), delta);
    }
}


/// A live handle's worker slot is never handed to a new intent: the
/// slot an intent acquires is free, and every live handle's slot is
/// in use until the engine confirms its worker stopped.
pub proof fn lemma_no_slot_reuse(b: GraphBackend, w: int, spatial: bool)
    requires
        b.wf(),
        b.spec_pool_for(spatial).is_first_free(w),
    ensures
        forall|i: int|
            0 <= i < b.handles@.len() && (#[trigger] b.handles@[i]).spatial == spatial
                ==> b.handles@[i].worker != w,
{
    assert forall|i: int|
        0 <= i < b.handles@.len() && (#[trigger] b.handles@[i]).spatial == spatial
            implies b.handles@[i].worker != w by {
        assert(b.handle_slot_live(b.handles@[i]));
    }
}


/// The channel hookup used when a worker is wired into its effect
/// chain and the chain into the output: corresponding channels are
/// connected one to one, as many as both sides have.
pub fn channel_connections(source_channels: u32, dest_channels: u32) -> (r: Vec<(u32, u32)>)
    ensures
        r@.len() == if source_channels <= dest_channels {
            source_channels as int
        } else {
            dest_channels as int
        },
        forall|i: int|
            0 <= i < r@.len() ==> (#[trigger] r@[i]).0 == i && r@[i].1 == i,
{
    let n = if source_channels <= dest_channels {
        source_channels
    } else {
        dest_channels
    };
    let mut connections: Vec<(u32, u32)> = Vec::new();
    let mut i: u32 = 0;
    while i < n
        invariant
            i <= n,
            connections@.len() == i,
            forall|j: int| 0 <= j < i ==> (#[trigger] connections@[j]).0 == j && connections@[j].1 == j,
        decreases n - i,
    {
        connections.push((i, i));
        i = i + 1;
    }
    connections
}

} // verus!
