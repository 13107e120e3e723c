//! Per-agent hunger and ambition, with their per-tick decay and drift.

use vstd::prelude::*;
use crate::rng::rand_below;

verus! {

/// Vitals are carried in tenths of a point: 1000 stands for the nominal 100.0.
pub const VITAL_MAX: u32 = 1000;

/// Hunger lost on every tick (2.0 points).
pub const HUNGER_DECAY: u32 = 20;

/// Lower bound of a freshly drawn ambition (30.0 points).
pub const AMBITION_START_MIN: u32 = 300;

/// Width of the range a fresh ambition is drawn from: [30.0, 70.0).
pub const AMBITION_START_SPAN: u32 = 400;

/// Width of the per-tick ambition drift range: [-1.0, 2.0).
pub const DRIFT_SPAN: u32 = 30;

/// Offset subtracted from the drift draw, so a tick can lose up to 1.0.
pub const DRIFT_DOWN: u32 = 10;

/// The clamp every vital is held to.
pub open spec fn clamped(v: int) -> int {
    if v < 0 {
        0
    } else if v > VITAL_MAX {
        VITAL_MAX as int
    } else {
        v
    }
}

/// Hunger after one tick of decay.
pub open spec fn decayed(hunger: int) -> int {
    if hunger >= HUNGER_DECAY {
        hunger - HUNGER_DECAY
    } else {
        0
    }
}

/// Ambition after one tick of drift, for the draw `d` in [0, DRIFT_SPAN).
pub open spec fn drifted(ambition: int, d: int) -> int {
    clamped(ambition + d - DRIFT_DOWN)
}

/// Two bounded vitals owned by one agent.
///
/// Hunger starts full and only decays or is restored by feeding; ambition
/// starts in the middle of its range and drifts a little every tick.
#[derive(Clone, Copy, Debug, PartialEq, Eq, Structural)]
pub struct Needs {
    pub hunger: u32,
    pub ambition: u32,
}

impl Needs {
    /// Both vitals stay within [0, VITAL_MAX].
    pub open spec fn wf(self) -> bool {
        self.hunger <= VITAL_MAX && self.ambition <= VITAL_MAX
    }

    /// A fresh set of needs: full hunger, ambition drawn in [30.0, 70.0).
    pub fn new() -> (r: Needs)
        ensures
            r.hunger == VITAL_MAX,
            AMBITION_START_MIN <= r.ambition < AMBITION_START_MIN + AMBITION_START_SPAN,
            r.wf(),
    {
        Needs { hunger: VITAL_MAX, ambition: AMBITION_START_MIN + rand_below(AMBITION_START_SPAN) }
    }

    /// One tick: hunger decays by a fixed amount, ambition drifts by a
    /// bounded random delta; both are clamped to their range.
    pub fn update(&mut self)
        requires
            old(self).wf(),
        ensures
            final(self).hunger == decayed(old(self).hunger as int),
            exists|d: int|
                0 <= d < DRIFT_SPAN && final(self).ambition == drifted(
                    old(self).ambition as int,
                    d,
                ),
            final(self).wf(),
    {
        if self.hunger >= HUNGER_DECAY {
            self.hunger = self.hunger - HUNGER_DECAY;
        } else {
            self.hunger = 0;
        }
        let d: u32 = rand_below(DRIFT_SPAN);
        let raw: u32 = self.ambition + d;
        let shifted: u32 = if raw >= DRIFT_DOWN {
            raw - DRIFT_DOWN
        } else {
            0
        };
        self.ambition = if shifted > VITAL_MAX {
            VITAL_MAX
        } else {
            shifted
        };
        proof {
            assert(self.ambition == drifted(old(self).ambition as int, d as int));
        }
    }

    /// Feeding restores hunger, capped at the maximum. Any amount is
    /// accepted up to what the machine's addition can carry.
    pub fn eat(&mut self, amount: u32)
        requires
            old(self).wf(),
            amount <= u32::MAX - VITAL_MAX,
        ensures
            final(self).hunger == clamped(old(self).hunger + amount),
            final(self).ambition == old(self).ambition,
            final(self).wf(),
    {
        let raw: u32 = self.hunger + amount;
        self.hunger = if raw > VITAL_MAX {
            VITAL_MAX
        } else {
            raw
        };
    }
}

} // verus!
