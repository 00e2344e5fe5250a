//! The simulation clock: simulated time, the step size and the budget of
//! time that is still to be simulated.

use vstd::prelude::*;
use crate::fixed::{fixed_add, fixed_sub, sat_add, sat_sub};

verus! {

/// At or below this budget a clock that runs indefinitely is refilled.
pub const LOW_WATER_MARK: i64 = 100_000;

/// What a refill adds to the budget.
pub const REFILL: i64 = 100_000;

/// A parameter that a constructor refuses.
#[derive(Clone, Copy, Debug, PartialEq, Eq)]
pub enum ConfigError {
    /// The step size is zero or negative.
    NonPositiveStep,
    /// The lower weight bound lies above the upper one.
    InvertedWeightBounds,
}

/// Tracks simulated time. All fields are fixed-point seconds.
#[derive(Clone, Copy, Debug)]
pub struct Clock {
    /// The total time that has been simulated.
    pub time: i64,
    /// The remaining time to simulate.
    pub time_to_simulate: i64,
    /// If true, the budget is refilled whenever it runs low.
    pub run_indefinitely: bool,
    /// The time step of the simulation.
    pub tau: i64,
}

impl Clock {
    /// The step size is positive.
    pub open spec fn wf(&self) -> bool {
        self.tau > 0
    }

    /// No budget is left: time stands still and nothing integrates.
    pub open spec fn paused(&self) -> bool {
        self.time_to_simulate <= 0
    }

    /// The budget after the refill that `advanced` starts with.
    pub open spec fn refilled_budget(&self) -> i64 {
        if self.run_indefinitely && self.time_to_simulate <= LOW_WATER_MARK {
            sat_add(self.time_to_simulate, REFILL)
        } else {
            self.time_to_simulate
        }
    }

    /// The clock one tick later.
    pub open spec fn advanced(&self) -> Clock {
        if self.refilled_budget() <= 0 {
            Clock { time_to_simulate: self.refilled_budget(), ..*self }
        } else {
            Clock {
                time: sat_add(self.time, self.tau),
                time_to_simulate: sat_sub(self.refilled_budget(), self.tau),
                ..*self
            }
        }
    }

    /// A stopped clock at time zero with step `tau` and an empty budget.
    pub fn new(tau: i64) -> (r: Result<Clock, ConfigError>)
        ensures
            tau > 0 ==> r == Ok::<Clock, ConfigError>(
                Clock { time: 0, time_to_simulate: 0, run_indefinitely: false, tau },
            ),
            tau <= 0 ==> r == Err::<Clock, ConfigError>(ConfigError::NonPositiveStep),
    {
        if tau <= 0 {
            Err(ConfigError::NonPositiveStep)
        } else {
            Ok(Clock { time: 0, time_to_simulate: 0, run_indefinitely: false, tau })
        }
    }

    /// Whether the clock is out of budget.
    pub fn is_paused(&self) -> (r: bool)
        ensures
            r == self.paused(),
    {
        self.time_to_simulate <= 0
    }
}

/// Advances the clock by one tick: refills a low budget if the clock runs
/// indefinitely, then, unless the budget is used up, moves `tau` from the
/// budget to the simulated time.
pub fn update_clock(clock: &mut Clock)
    ensures
        *final(clock) == old(clock).advanced(),
        old(clock).tau >= 0 ==> final(clock).time >= old(clock).time,
{
    if clock.run_indefinitely && clock.time_to_simulate <= LOW_WATER_MARK {
        clock.time_to_simulate = fixed_add(clock.time_to_simulate, REFILL);
    }
    if clock.time_to_simulate <= 0 {
        return ;
    }
    clock.time = fixed_add(clock.time, clock.tau);
    clock.time_to_simulate = fixed_sub(clock.time_to_simulate, clock.tau);
}

} // verus!
