//! The car controller's decision layer.
//!
//! A car is driven by the fuzzy engine: each tick the simulation
//! writes sensor measurements into the engine's inputs, evaluates the
//! rule set belonging to the car's current state, and reads back
//! steering and speed.  Lane-change phases form a state machine that
//! lives entirely outside the engine: each state only picks a
//! different rule set and thresholds one boolean-coded output to
//! decide the next state.

pub mod fuzzy;

use vstd::prelude::*;
use crate::fuzzy::{CrispValue, SCALE};

verus! {

/// Marker for entities owned by the car system.
#[derive(Copy, Clone)]
pub struct ForCar {}

/// Lane-change phase of a normally driving car.
#[derive(Copy, Clone, Debug, PartialEq, Eq, Structural)]
pub enum CarState {
    GoNormal,
    GoLeftLane,
    StayLeftLane,
    BackToRightLane,
}

/// How a car drives: at a fixed slow pace, or normally with the
/// lane-change state machine.
#[derive(Copy, Clone, Debug, PartialEq, Eq, Structural)]
pub enum CarType {
    Slow,
    Normal(CarState),
}

/// A boolean-coded output fires when its crisp value is finite and
/// above one half; a non-finite value never fires (as an unordered
/// comparison against one half would not).
pub open spec fn spec_crisp_is_high(v: CrispValue) -> bool {
    match v {
        CrispValue::Finite(x) => x > SCALE / 2,
        CrispValue::NonFinite => false,
    }
}

/// Thresholds a boolean-coded crisp output at one half.
pub fn crisp_is_high(v: CrispValue) -> (r: bool)
    ensures
        r == spec_crisp_is_high(v),
{
    match v {
        CrispValue::Finite(x) => x > 500_000,
        CrispValue::NonFinite => false,
    }
}

/// The speed fraction a crisp speed output commands: a non-finite
/// centroid (no rule fired) commands a stop, and a finite one is
/// clamped to `[0, 1]`.
pub open spec fn spec_speed_fraction(v: CrispValue) -> int {
    match v {
        CrispValue::NonFinite => 0,
        CrispValue::Finite(x) => if x < 0 {
            0
        } else if x > SCALE {
            SCALE as int
        } else {
            x as int
        },
    }
}

/// Turns the speed output into a safe fraction of the car's default
/// velocity.
pub fn speed_fraction(v: CrispValue) -> (r: i64)
    ensures
        r == spec_speed_fraction(v),
        0 <= r <= SCALE,
{
    match v {
        CrispValue::NonFinite => 0,
        CrispValue::Finite(x) => {
            if x < 0 {
                0
            } else if x > SCALE {
                SCALE
            } else {
                x
            }
        },
    }
}

/// One step of the lane-change state machine.  `fired` is the
/// thresholded transition output of the current state's rule set
/// (`go_left_lane`, `stay_left_lane`, `back_to_right_lane` or
/// `go_normal`); a car that is turning back never starts a lane
/// change.  Slow cars have no state machine.
pub open spec fn spec_next_car_type(t: CarType, fired: bool, is_turning_back: bool) -> CarType {
    match t {
        CarType::Slow => CarType::Slow,
        CarType::Normal(state) => CarType::Normal(
            match state {
                CarState::GoNormal => if fired && !is_turning_back {
                    CarState::GoLeftLane
                } else {
                    CarState::GoNormal
                },
                CarState::GoLeftLane => if fired {
                    CarState::StayLeftLane
                } else {
                    CarState::GoLeftLane
                },
                CarState::StayLeftLane => if fired {
                    CarState::BackToRightLane
                } else {
                    CarState::StayLeftLane
                },
                CarState::BackToRightLane => if fired {
                    CarState::GoNormal
                } else {
                    CarState::BackToRightLane
                },
            },
        ),
    }
}

/// Advances the lane-change state machine by one tick.
pub fn next_car_type(t: CarType, fired: bool, is_turning_back: bool) -> (r: CarType)
    ensures
        r == spec_next_car_type(t, fired, is_turning_back),
{
    match t {
        CarType::Slow => CarType::Slow,
        CarType::Normal(state) => CarType::Normal(
            match state {
                CarState::GoNormal => {
                    if fired && !is_turning_back {
                        CarState::GoLeftLane
                    } else {
                        CarState::GoNormal
                    }
                },
                CarState::GoLeftLane => {
                    if fired {
                        CarState::StayLeftLane
                    } else {
                        CarState::GoLeftLane
                    }
                },
                CarState::StayLeftLane => {
                    if fired {
                        CarState::BackToRightLane
                    } else {
                        CarState::StayLeftLane
                    }
                },
                CarState::BackToRightLane => {
                    if fired {
                        CarState::GoNormal
                    } else {
                        CarState::BackToRightLane
                    }
                },
            },
        ),
    }
}

} // verus!
