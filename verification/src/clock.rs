//! The tick driver: when a tick is due, and in which order its stages run.
//!
//! A tick has a fixed length. Time that has passed beyond one tick when a
//! tick becomes due is dropped: no tick is made up for later.

use vstd::prelude::*;
use crate::fixed::{saturate, saturated};

verus! {

/// The length of a tick, in seconds: a sixtieth of a second.
pub const TIME_STEP: i64 = 139_810;

/// The stages of one tick, in the order in which they run. Collision comes
/// last, so that it sees where the entities are after this tick's motion.
#[derive(Clone, Copy, Debug, PartialEq, Eq, Structural)]
pub enum Stage {
    Steering,
    Locomotion,
    Collision,
}

impl Stage {
    /// The place of a stage in the tick, from zero.
    pub open spec fn rank(self) -> int {
        match self {
            Stage::Steering => 0,
            Stage::Locomotion => 1,
            Stage::Collision => 2,
        }
    }

    /// The stage that opens a tick.
    pub fn first() -> (stage: Stage)
        ensures
            stage.rank() == 0,
    {
        Stage::Steering
    }

    /// The stage that follows this one, or `None` when the tick is over.
    pub fn next(self) -> (following: Option<Stage>)
        ensures
            self.rank() < 2 <==> following is Some,
            following matches Some(stage) ==> stage.rank() == self.rank() + 1,
    {
        match self {
            Stage::Steering => Some(Stage::Locomotion),
            Stage::Locomotion => Some(Stage::Collision),
            Stage::Collision => None,
        }
    }
}

/// Gathers the time that passes between frames and tells when a tick is
/// due.
#[derive(Clone, Copy, Debug, PartialEq, Eq, Structural)]
pub struct FixedTimestep {
    /// The length of a tick, in seconds.
    pub step: i64,
    /// The time gathered since the last tick, in seconds.
    pub accumulator: i64,
}

impl FixedTimestep {
    /// The time gathered once `elapsed` more seconds have passed.
    pub open spec fn gathered(self, elapsed: int) -> int {
        saturated(self.accumulator + elapsed)
    }

    /// A tick is due once `elapsed` more seconds have passed.
    pub open spec fn due(self, elapsed: int) -> bool {
        self.gathered(elapsed) >= self.step
    }

    /// A driver for ticks of `step` seconds that has gathered no time yet.
    pub fn new(step: i64) -> (clock: FixedTimestep)
        ensures
            clock == (FixedTimestep { step, accumulator: 0 }),
    {
        FixedTimestep { step, accumulator: 0 }
    }

    /// Takes note that `elapsed` seconds have passed since the last call
    /// and tells whether the host is to run a tick now. After a tick the
    /// gathering starts from nothing.
    pub fn update(&mut self, elapsed: i64) -> (run: bool)
        ensures
            run == old(self).due(elapsed as int),
            final(self).step == old(self).step,
            final(self).accumulator == if run {
                0
            } else {
                old(self).gathered(elapsed as int)
            },
    {
        let gathered: i64 = saturate((self.accumulator as i128) + (elapsed as i128));
        if gathered >= self.step {
            self.accumulator = 0;
            true
        } else {
            self.accumulator = gathered;
            false
        }
    }
}

} // verus!
