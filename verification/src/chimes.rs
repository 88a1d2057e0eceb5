//! Wind chimes: a decaying random strike pattern.
//!
//! Each strike rings one chime sample that has not sounded since the
//! last full rotation, a little quieter than the strike before; once
//! the amplitude decays past the audible floor the pattern ends. The
//! randomness comes through [`crate::rng::random_below`], and every
//! contract here holds for whatever values the draws return.

use vstd::prelude::*;

verus! {

use crate::rng::random_below;

/// How many chime samples the pattern rotates through.
pub const CHIME_COUNT: usize = 12;

/// How much quieter each strike is than the one before, in
/// milli-units of linear volume.
pub const CHIME_DECAY_MILLI: u32 = 30;

/// Strikes stop once the decayed amplitude falls to this floor, in
/// milli-units of linear volume.
pub const CHIME_FLOOR_MILLI: u32 = 150;

/// The decaying strike state: a countdown to the next strike, the
/// current amplitude, and which samples have sounded this rotation.
#[derive(Debug)]
pub struct ChimesTimer {
    /// The first tick strikes immediately.
    pub initial: bool,
    /// Milliseconds until the next strike.
    pub timer_ms: u64,
    /// Current strike amplitude in milli-units; decays each strike.
    pub amplitude: u32,
    /// Where the chimes hang, in milli-meters.
    pub position: (i64, i64),
    /// Which samples have sounded since the last rotation.
    pub played: Vec<bool>,
}

/// Every sample has sounded this rotation.
pub open spec fn all_played(s: Seq<bool>) -> bool {
    forall|i: int| 0 <= i < s.len() ==> s[i]
}

/// What one tick of the chime pattern asks of the caller.
#[derive(Clone, Copy, Debug, PartialEq, Eq, Structural)]
pub enum ChimeTick {
    /// The countdown is still running; nothing sounds.
    Idle,
    /// The amplitude has decayed past the floor: the pattern is over
    /// and the caller drops the timer.
    Faded,
    /// Ring one chime now.
    Strike {
        /// Which chime sample to ring.
        sample_index: usize,
        /// The linear volume to ring it at, in milli-units.
        volume: u32,
    },
}

impl ChimesTimer {
    /// One flag per sample, and enough amplitude headroom that the
    /// strike volume (twice the amplitude) is computable.
    pub open spec fn wf(self) -> bool {
        &&& self.played@.len() == CHIME_COUNT
        &&& self.amplitude <= u32::MAX / 2
    }

    /// A fresh pattern: it strikes on its first tick, with every
    /// sample unplayed and a sub-second random initial countdown.
    pub fn new(initial_amplitude: u32, position: (i64, i64)) -> (r: Self)
        requires
            initial_amplitude <= u32::MAX / 2,
        ensures
            r.wf(),
            r.initial,
            r.amplitude == initial_amplitude,
            r.position == position,
            r.timer_ms < 1000,
            forall|i: int| 0 <= i < CHIME_COUNT ==> !r.played@[i],
    {
        let timer_ms = random_below(1000) as u64;
        let mut played: Vec<bool> = Vec::new();
        let mut i: usize = 0;
        while i < CHIME_COUNT
            invariant
                i <= CHIME_COUNT,
                played@.len() == i,
                forall|j: int| 0 <= j < i ==> !played@[j],
            decreases CHIME_COUNT - i,
        {
            played.push(false);
            i += 1;
        }
        ChimesTimer { initial: true, timer_ms, amplitude: initial_amplitude, position, played }
    }

    /// Advance the pattern by one tick's delta. Until the countdown
    /// ends nothing sounds. When it ends (or on the very first tick)
    /// the amplitude decays by one step and the countdown re-arms at
    /// 100 to 300 ms; past the floor the pattern reports itself
    /// finished, otherwise it rings a random chime that has not
    /// sounded this rotation, starting a new rotation once all have.
    pub fn tick(&mut self, delta_ms: u64) -> (r: ChimeTick)
        requires
            old(self).wf(),
        ensures
            final(self).wf(),
            final(self).position == old(self).position,
            (r is Idle) == (!old(self).initial && delta_ms < old(self).timer_ms),
            ({
                let decayed: int = if old(self).amplitude >= CHIME_DECAY_MILLI {
                    old(self).amplitude - CHIME_DECAY_MILLI
                } else {
                    0
                };
                match r {
                    ChimeTick::Idle => {
                        &&& final(self).initial == old(self).initial
                        &&& final(self).amplitude == old(self).amplitude
                        &&& final(self).played@ == old(self).played@
                        &&& final(self).timer_ms == old(self).timer_ms - delta_ms
                    },
                    ChimeTick::Faded => {
                        &&& decayed <= CHIME_FLOOR_MILLI
                        &&& !final(self).initial
                        &&& final(self).amplitude == decayed
                        &&& final(self).played@ == old(self).played@
                        &&& 100 <= final(self).timer_ms < 300
                    },
                    ChimeTick::Strike { sample_index, volume } => {
                        let base = if all_played(old(self).played@) {
                            Seq::new(CHIME_COUNT as nat, |i: int| false)
                        } else {
                            old(self).played@
                        };
                        &&& decayed > CHIME_FLOOR_MILLI
                        &&& !final(self).initial
                        &&& final(self).amplitude == decayed
                        &&& volume == decayed * 2
                        &&& sample_index < CHIME_COUNT
                        &&& !base[sample_index as int]
                        &&& final(self).played@ == base.update(sample_index as int, true)
                        &&& 100 <= final(self).timer_ms < 300
                    },
                }
            }),
    {
        if !self.initial && delta_ms < self.timer_ms {
            self.timer_ms = self.timer_ms - delta_ms;
            return ChimeTick::Idle;
        }
        self.initial = false;
        self.amplitude = if self.amplitude >= CHIME_DECAY_MILLI {
            self.amplitude - CHIME_DECAY_MILLI
        } else {
            0
        };
        self.timer_ms = 100 + (random_below(200) as u64);
        if self.amplitude <= CHIME_FLOOR_MILLI {
            return ChimeTick::Faded;
        }
        let ghost mid = *self;
        let mut cleared = false;
        let mut scan: usize = 0;
        let mut all = true;
        while scan < CHIME_COUNT
            invariant
                *self == mid,
                mid.wf(),
                scan <= CHIME_COUNT,
                all == (forall|j: int| 0 <= j < scan ==> self.played@[j]),
            decreases CHIME_COUNT - scan,
        {
            if !self.played[scan] {
                all = false;
            }
            scan += 1;
        }
        let ghost base = if all {
            Seq::new(CHIME_COUNT as nat, |i: int| false)
        } else {
            mid.played@
        };
        if all {
            cleared = true;
            let mut z: usize = 0;
            while z < CHIME_COUNT
                invariant
                    mid.wf(),
                    self.initial == mid.initial,
                    self.amplitude == mid.amplitude,
                    self.timer_ms == mid.timer_ms,
                    self.position == mid.position,
                    self.played@.len() == CHIME_COUNT,
                    z <= CHIME_COUNT,
                    forall|j: int| 0 <= j < z ==> !self.played@[j],
                    forall|j: int| z <= j < CHIME_COUNT ==> self.played@[j] == mid.played@[j],
                decreases CHIME_COUNT - z,
            {
                self.played[z] = false;
                z += 1;
            }
            proof {
                assert(self.played@ =~= base);
            }
        }
        proof {
            assert(self.played@ == base);
            assert(exists|j: int| 0 <= j < CHIME_COUNT && !self.played@[j]) by {
                if cleared {
                    assert(!self.played@[0]);
                } else {
                    assert(!all_played(old(self).played@));
                    let w = choose|j: int| !(0 <= j < CHIME_COUNT ==> old(self).played@[j]);
                    assert(!self.played@[w]);
                }
            }
        }
        let mut options: Vec<usize> = Vec::new();
        let mut i: usize = 0;
        while i < CHIME_COUNT
            invariant
                mid.wf(),
                self.initial == mid.initial,
                self.amplitude == mid.amplitude,
                self.timer_ms == mid.timer_ms,
                self.position == mid.position,
                self.played@ == base,
                self.played@.len() == CHIME_COUNT,
                i <= CHIME_COUNT,
                forall|t: int|
                    0 <= t < options@.len() ==> (#[trigger] options@[t]) < CHIME_COUNT
                        && !self.played@[options@[t] as int],
                (exists|j: int| 0 <= j < i && !self.played@[j]) ==> options@.len() > 0,
            decreases CHIME_COUNT - i,
        {
            if !self.played[i] {
                options.push(i);
            }
            i += 1;
        }
        let pick = random_below(options.len());
        let idx = options[pick];
        self.played[idx] = true;
        proof {
            assert(self.played@ =~= base.update(idx as int, true));
        }
        ChimeTick::Strike { sample_index: idx, volume: self.amplitude * 2 }
    }
}

} // verus!
