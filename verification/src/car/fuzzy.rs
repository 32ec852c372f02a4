//! The car controller's fuzzy configuration: its input and output
//! variables, the membership sets over them, and the rule sets its
//! state machine swaps between.
//!
//! Distances are in metres, velocities in metres per second, light
//! countdowns in seconds, and deviations are dimensionless ratios —
//! all in micro-units (`SCALE` micro-units equal one).  Every
//! membership curve here is piecewise-linear: a shoulder, a triangle
//! or a trapezoid.

use vstd::prelude::*;
use crate::fuzzy::{
    Fuzzy,
    InputId,
    InputSetId,
    MembershipFunction,
    OutputId,
    OutputSetId,
    RuleId,
    RuleSetId,
    SCALE,
};

verus! {

/// Lateral deviation ratio within the own lane, `0` at the left curb
/// and `1` at the right.
pub struct Deviation {
    pub input: InputId,
    pub far_left: InputSetId,
    pub left: InputSetId,
    pub middle: InputSetId,
    pub right: InputSetId,
    pub far_right: InputSetId,
}

/// Lateral deviation ratio within the left (overtaking) lane.
pub struct LeftDeviation {
    pub input: InputId,
    pub far_left: InputSetId,
    pub left: InputSetId,
    pub middle: InputSetId,
    pub right: InputSetId,
    pub far_right: InputSetId,
}

/// Distance to the nearest street light ahead, in metres.
pub struct Distance {
    pub input: InputId,
    pub near: InputSetId,
    pub medium: InputSetId,
    pub far: InputSetId,
}

/// Phase of the nearest street light, encoded as a countdown value.
pub struct LightStatus {
    pub input: InputId,
    pub green: InputSetId,
    pub less_green: InputSetId,
    pub yellow: InputSetId,
    pub less_red: InputSetId,
    pub red: InputSetId,
}

/// Distance to the nearest car ahead, in metres.
pub struct CarDistance {
    pub input: InputId,
    pub near: InputSetId,
    pub near_medium: InputSetId,
    pub medium: InputSetId,
    pub far: InputSetId,
    pub medium_far: InputSetId,
}

/// Velocity of the nearest car ahead, in metres per second.
pub struct CarVeclocity {
    pub input: InputId,
    pub slow: InputSetId,
    pub medium: InputSetId,
}

/// Distance to the nearest oncoming car, in metres.
pub struct CarOppositeDistance {
    pub input: InputId,
    pub near: InputSetId,
    pub far: InputSetId,
}

/// Velocity of the nearest oncoming car, in metres per second.
pub struct CarOppositeVelocity {
    pub input: InputId,
    pub slow: InputSetId,
    pub medium: InputSetId,
}

/// Deviation ratio measured across the whole road while changing
/// lanes.
pub struct RoadDeviation {
    pub input: InputId,
    pub far_left: InputSetId,
    pub middle_left: InputSetId,
    pub left: InputSetId,
    pub middle: InputSetId,
    pub right: InputSetId,
    pub middle_right: InputSetId,
    pub far_right: InputSetId,
}

/// Longitudinal position of the overtaken car relative to the own
/// car, in metres (negative when it has fallen behind).
pub struct SideDeviation {
    pub input: InputId,
    pub back: InputSetId,
    pub not_back: InputSetId,
}

/// Steering bias in `[0, 1]`: `0` steers hard left, `1` hard right.
pub struct Steering {
    pub output: OutputId,
    pub hard_right: OutputSetId,
    pub right: OutputSetId,
    pub straight: OutputSetId,
    pub left: OutputSetId,
    pub hard_left: OutputSetId,
}

/// Speed as a fraction of the car's default velocity, in `[0, 1]`.
pub struct Speed {
    pub output: OutputId,
    pub stop: OutputSetId,
    pub slower: OutputSetId,
    pub slow: OutputSetId,
    pub medium: OutputSetId,
}

/// Boolean-coded transition signal: start overtaking.
pub struct GoLeftLane {
    pub output: OutputId,
    pub true_: OutputSetId,
    pub false_: OutputSetId,
}

/// Boolean-coded transition signal: settled in the left lane.
pub struct StayLeftLane {
    pub output: OutputId,
    pub true_: OutputSetId,
    pub false_: OutputSetId,
}

/// Boolean-coded transition signal: return to the right lane.
pub struct BackToRightLane {
    pub output: OutputId,
    pub true_: OutputSetId,
    pub false_: OutputSetId,
}

/// Boolean-coded transition signal: back to normal driving.
pub struct GoNormal {
    pub output: OutputId,
    pub true_: OutputSetId,
    pub false_: OutputSetId,
}

/// Membership of a boolean-coded output's `true` set: rises from `0.3`
/// to full at `0.7`.
fn true_fn() -> (r: MembershipFunction)
    ensures
        r.wf(),
{
    MembershipFunction::rising(300_000, 700_000)
}

/// Membership of a boolean-coded output's `false` set: full below
/// `0.7`, none from there on.
fn false_fn() -> (r: MembershipFunction)
    ensures
        r.wf(),
{
    MembershipFunction::falling(699_999, 700_000)
}


impl Deviation {
    /// Every handle points into `fz`'s arenas.
    pub open spec fn valid_for(&self, fz: &Fuzzy) -> bool {
        &&& self.input.id < fz.inputs@.len()
        &&& self.far_left.id < fz.input_sets@.len()
        &&& self.left.id < fz.input_sets@.len()
        &&& self.middle.id < fz.input_sets@.len()
        &&& self.right.id < fz.input_sets@.len()
        &&& self.far_right.id < fz.input_sets@.len()
    }

    /// Five overlapping bands across the own lane.
    pub fn new(fz: &mut Fuzzy) -> (r: Self)
        requires
            old(fz).wf(),
        ensures
            final(fz).wf(),
            final(fz).inputs@.len() >= old(fz).inputs@.len(),
            final(fz).outputs@.len() >= old(fz).outputs@.len(),
            final(fz).input_sets@.len() >= old(fz).input_sets@.len(),
            final(fz).output_sets@.len() >= old(fz).output_sets@.len(),
            final(fz).rules@.len() >= old(fz).rules@.len(),
            final(fz).rule_sets@.len() >= old(fz).rule_sets@.len(),
            r.valid_for(&*final(fz)),
            final(fz).input_sets@[r.far_left.id as int].input == r.input,
            final(fz).input_sets@[r.left.id as int].input == r.input,
            final(fz).input_sets@[r.middle.id as int].input == r.input,
            final(fz).input_sets@[r.right.id as int].input == r.input,
            final(fz).input_sets@[r.far_right.id as int].input == r.input,
    {
        let input = fz.add_input(0, 1_000_000);
        let far_left = fz.add_input_set(input, MembershipFunction::falling(250_000, 400_000));
        let left = fz.add_input_set(input, MembershipFunction::triangle(250_000, 400_000, 500_000));
        let middle = fz.add_input_set(input, MembershipFunction::triangle(400_000, 500_000, 600_000));
        let right = fz.add_input_set(input, MembershipFunction::triangle(500_000, 600_000, 750_000));
        let far_right = fz.add_input_set(input, MembershipFunction::rising(600_000, 750_000));
        Deviation { input, far_left, left, middle, right, far_right }
    }
}

impl LeftDeviation {
    /// Every handle points into `fz`'s arenas.
    pub open spec fn valid_for(&self, fz: &Fuzzy) -> bool {
        &&& self.input.id < fz.inputs@.len()
        &&& self.far_left.id < fz.input_sets@.len()
        &&& self.left.id < fz.input_sets@.len()
        &&& self.middle.id < fz.input_sets@.len()
        &&& self.right.id < fz.input_sets@.len()
        &&& self.far_right.id < fz.input_sets@.len()
    }

    /// Five overlapping bands across the left lane.
    pub fn new(fz: &mut Fuzzy) -> (r: Self)
        requires
            old(fz).wf(),
        ensures
            final(fz).wf(),
            final(fz).inputs@.len() >= old(fz).inputs@.len(),
            final(fz).outputs@.len() >= old(fz).outputs@.len(),
            final(fz).input_sets@.len() >= old(fz).input_sets@.len(),
            final(fz).output_sets@.len() >= old(fz).output_sets@.len(),
            final(fz).rules@.len() >= old(fz).rules@.len(),
            final(fz).rule_sets@.len() >= old(fz).rule_sets@.len(),
            r.valid_for(&*final(fz)),
            final(fz).input_sets@[r.far_left.id as int].input == r.input,
            final(fz).input_sets@[r.left.id as int].input == r.input,
            final(fz).input_sets@[r.middle.id as int].input == r.input,
            final(fz).input_sets@[r.right.id as int].input == r.input,
            final(fz).input_sets@[r.far_right.id as int].input == r.input,
    {
        let input = fz.add_input(0, 1_000_000);
        let far_left = fz.add_input_set(input, MembershipFunction::falling(250_000, 400_000));
        let left = fz.add_input_set(input, MembershipFunction::triangle(250_000, 400_000, 500_000));
        let middle = fz.add_input_set(input, MembershipFunction::triangle(400_000, 500_000, 600_000));
        let right = fz.add_input_set(input, MembershipFunction::triangle(500_000, 600_000, 750_000));
        let far_right = fz.add_input_set(input, MembershipFunction::rising(600_000, 750_000));
        LeftDeviation { input, far_left, left, middle, right, far_right }
    }
}

impl Distance {
    /// Every handle points into `fz`'s arenas.
    pub open spec fn valid_for(&self, fz: &Fuzzy) -> bool {
        &&& self.input.id < fz.inputs@.len()
        &&& self.near.id < fz.input_sets@.len()
        &&& self.medium.id < fz.input_sets@.len()
        &&& self.far.id < fz.input_sets@.len()
    }

    /// Street lights up to fifty metres ahead matter.
    pub fn new(fz: &mut Fuzzy) -> (r: Self)
        requires
            old(fz).wf(),
        ensures
            final(fz).wf(),
            final(fz).inputs@.len() >= old(fz).inputs@.len(),
            final(fz).outputs@.len() >= old(fz).outputs@.len(),
            final(fz).input_sets@.len() >= old(fz).input_sets@.len(),
            final(fz).output_sets@.len() >= old(fz).output_sets@.len(),
            final(fz).rules@.len() >= old(fz).rules@.len(),
            final(fz).rule_sets@.len() >= old(fz).rule_sets@.len(),
            r.valid_for(&*final(fz)),
            final(fz).input_sets@[r.near.id as int].input == r.input,
            final(fz).input_sets@[r.medium.id as int].input == r.input,
            final(fz).input_sets@[r.far.id as int].input == r.input,
    {
        let input = fz.add_input(0, 50_000_000);
        let near = fz.add_input_set(input, MembershipFunction::falling(1_500_000, 5_000_000));
        let medium = fz.add_input_set(input, MembershipFunction::trapezoid(4_000_000, 10_000_000, 20_000_000, 25_000_000));
        let far = fz.add_input_set(input, MembershipFunction::rising(20_000_000, 35_000_000));
        Distance { input, near, medium, far }
    }
}

impl Speed {
    /// Every handle points into `fz`'s arenas.
    pub open spec fn valid_for(&self, fz: &Fuzzy) -> bool {
        &&& self.output.id < fz.outputs@.len()
        &&& self.stop.id < fz.output_sets@.len()
        &&& self.slower.id < fz.output_sets@.len()
        &&& self.slow.id < fz.output_sets@.len()
        &&& self.medium.id < fz.output_sets@.len()
    }

    /// Four speed fractions between full stop and cruising.
    pub fn new(fz: &mut Fuzzy) -> (r: Self)
        requires
            old(fz).wf(),
        ensures
            final(fz).wf(),
            final(fz).inputs@.len() >= old(fz).inputs@.len(),
            final(fz).outputs@.len() >= old(fz).outputs@.len(),
            final(fz).input_sets@.len() >= old(fz).input_sets@.len(),
            final(fz).output_sets@.len() >= old(fz).output_sets@.len(),
            final(fz).rules@.len() >= old(fz).rules@.len(),
            final(fz).rule_sets@.len() >= old(fz).rule_sets@.len(),
            r.valid_for(&*final(fz)),
            final(fz).output_sets@[r.stop.id as int].output == r.output,
            final(fz).output_sets@[r.slower.id as int].output == r.output,
            final(fz).output_sets@[r.slow.id as int].output == r.output,
            final(fz).output_sets@[r.medium.id as int].output == r.output,
    {
        let output = fz.add_output(0, 1_000_000);
        let stop = fz.add_output_set(output, MembershipFunction::falling(0, 50_000));
        let slower = fz.add_output_set(output, MembershipFunction::triangle(25_000, 250_000, 500_000));
        let slow = fz.add_output_set(output, MembershipFunction::triangle(300_000, 600_000, 800_000));
        let medium = fz.add_output_set(output, MembershipFunction::rising(700_000, 900_000));
        Speed { output, stop, slower, slow, medium }
    }
}

impl LightStatus {
    /// Every handle points into `fz`'s arenas.
    pub open spec fn valid_for(&self, fz: &Fuzzy) -> bool {
        &&& self.input.id < fz.inputs@.len()
        &&& self.green.id < fz.input_sets@.len()
        &&& self.less_green.id < fz.input_sets@.len()
        &&& self.yellow.id < fz.input_sets@.len()
        &&& self.red.id < fz.input_sets@.len()
        &&& self.less_red.id < fz.input_sets@.len()
    }

    /// The light phases over the eight-second countdown cycle.
    pub fn new(fz: &mut Fuzzy) -> (r: Self)
        requires
            old(fz).wf(),
        ensures
            final(fz).wf(),
            final(fz).inputs@.len() >= old(fz).inputs@.len(),
            final(fz).outputs@.len() >= old(fz).outputs@.len(),
            final(fz).input_sets@.len() >= old(fz).input_sets@.len(),
            final(fz).output_sets@.len() >= old(fz).output_sets@.len(),
            final(fz).rules@.len() >= old(fz).rules@.len(),
            final(fz).rule_sets@.len() >= old(fz).rule_sets@.len(),
            r.valid_for(&*final(fz)),
            final(fz).input_sets@[r.green.id as int].input == r.input,
            final(fz).input_sets@[r.less_green.id as int].input == r.input,
            final(fz).input_sets@[r.yellow.id as int].input == r.input,
            final(fz).input_sets@[r.red.id as int].input == r.input,
            final(fz).input_sets@[r.less_red.id as int].input == r.input,
    {
        let input = fz.add_input(0, 8_000_000);
        let green = fz.add_input_set(input, {
            let mut pts: Vec<(i64, i64)> = Vec::new();
            pts.push((1_000_000, SCALE));
            pts.push((2_000_000, 0));
            pts.push((7_500_000, 0));
            pts.push((8_000_000, SCALE));
            MembershipFunction::from_points(pts)
        });
        let less_green = fz.add_input_set(input, MembershipFunction::triangle(1_000_000, 2_000_000, 3_000_000));
        let yellow = fz.add_input_set(input, {
            let mut pts: Vec<(i64, i64)> = Vec::new();
            pts.push((2_000_000, 0));
            pts.push((3_000_000, SCALE));
            pts.push((4_000_000, 0));
            pts.push((6_000_000, 0));
            pts.push((7_000_000, SCALE));
            pts.push((8_000_000, 0));
            MembershipFunction::from_points(pts)
        });
        let red = fz.add_input_set(input, MembershipFunction::trapezoid(3_500_000, 4_000_000, 5_000_000, 6_000_000));
        let less_red = fz.add_input_set(input, MembershipFunction::triangle(5_000_000, 6_000_000, 7_000_000));
        LightStatus { input, green, less_green, yellow, red, less_red }
    }
}

impl CarDistance {
    /// Every handle points into `fz`'s arenas.
    pub open spec fn valid_for(&self, fz: &Fuzzy) -> bool {
        &&& self.input.id < fz.inputs@.len()
        &&& self.near.id < fz.input_sets@.len()
        &&& self.near_medium.id < fz.input_sets@.len()
        &&& self.medium.id < fz.input_sets@.len()
        &&& self.far.id < fz.input_sets@.len()
        &&& self.medium_far.id < fz.input_sets@.len()
    }

    /// Bands of headway to the car in front.
    pub fn new(fz: &mut Fuzzy) -> (r: Self)
        requires
            old(fz).wf(),
        ensures
            final(fz).wf(),
            final(fz).inputs@.len() >= old(fz).inputs@.len(),
            final(fz).outputs@.len() >= old(fz).outputs@.len(),
            final(fz).input_sets@.len() >= old(fz).input_sets@.len(),
            final(fz).output_sets@.len() >= old(fz).output_sets@.len(),
            final(fz).rules@.len() >= old(fz).rules@.len(),
            final(fz).rule_sets@.len() >= old(fz).rule_sets@.len(),
            r.valid_for(&*final(fz)),
            final(fz).input_sets@[r.near.id as int].input == r.input,
            final(fz).input_sets@[r.near_medium.id as int].input == r.input,
            final(fz).input_sets@[r.medium.id as int].input == r.input,
            final(fz).input_sets@[r.far.id as int].input == r.input,
            final(fz).input_sets@[r.medium_far.id as int].input == r.input,
    {
        let input = fz.add_input(0, 200_000_000);
        let near = fz.add_input_set(input, MembershipFunction::falling(5_000_000, 10_000_000));
        let near_medium = fz.add_input_set(input, MembershipFunction::falling(10_000_000, 20_000_000));
        let medium = fz.add_input_set(input, MembershipFunction::trapezoid(5_000_000, 10_000_000, 25_000_000, 30_000_000));
        let far = fz.add_input_set(input, MembershipFunction::rising(20_000_000, 25_000_000));
        let medium_far = fz.add_input_set(input, MembershipFunction::rising(5_000_000, 10_000_000));
        CarDistance { input, near, near_medium, medium, far, medium_far }
    }
}

impl CarVeclocity {
    /// Every handle points into `fz`'s arenas.
    pub open spec fn valid_for(&self, fz: &Fuzzy) -> bool {
        &&& self.input.id < fz.inputs@.len()
        &&& self.slow.id < fz.input_sets@.len()
        &&& self.medium.id < fz.input_sets@.len()
    }

    /// A car in front is slow below two metres per second.
    pub fn new(fz: &mut Fuzzy) -> (r: Self)
        requires
            old(fz).wf(),
        ensures
            final(fz).wf(),
            final(fz).inputs@.len() >= old(fz).inputs@.len(),
            final(fz).outputs@.len() >= old(fz).outputs@.len(),
            final(fz).input_sets@.len() >= old(fz).input_sets@.len(),
            final(fz).output_sets@.len() >= old(fz).output_sets@.len(),
            final(fz).rules@.len() >= old(fz).rules@.len(),
            final(fz).rule_sets@.len() >= old(fz).rule_sets@.len(),
            r.valid_for(&*final(fz)),
            final(fz).input_sets@[r.slow.id as int].input == r.input,
            final(fz).input_sets@[r.medium.id as int].input == r.input,
    {
        let input = fz.add_input(0, 30_000_000);
        let slow = fz.add_input_set(input, MembershipFunction::falling(2_000_000, 3_000_000));
        let medium = fz.add_input_set(input, MembershipFunction::rising(2_000_000, 3_000_000));
        CarVeclocity { input, slow, medium }
    }
}

impl CarOppositeDistance {
    /// Every handle points into `fz`'s arenas.
    pub open spec fn valid_for(&self, fz: &Fuzzy) -> bool {
        &&& self.input.id < fz.inputs@.len()
        &&& self.near.id < fz.input_sets@.len()
        &&& self.far.id < fz.input_sets@.len()
    }

    /// Oncoming traffic within forty metres blocks overtaking.
    pub fn new(fz: &mut Fuzzy) -> (r: Self)
        requires
            old(fz).wf(),
        ensures
            final(fz).wf(),
            final(fz).inputs@.len() >= old(fz).inputs@.len(),
            final(fz).outputs@.len() >= old(fz).outputs@.len(),
            final(fz).input_sets@.len() >= old(fz).input_sets@.len(),
            final(fz).output_sets@.len() >= old(fz).output_sets@.len(),
            final(fz).rules@.len() >= old(fz).rules@.len(),
            final(fz).rule_sets@.len() >= old(fz).rule_sets@.len(),
            r.valid_for(&*final(fz)),
            final(fz).input_sets@[r.near.id as int].input == r.input,
            final(fz).input_sets@[r.far.id as int].input == r.input,
    {
        let input = fz.add_input(0, 400_000_000);
        let near = fz.add_input_set(input, MembershipFunction::falling(30_000_000, 40_000_000));
        let far = fz.add_input_set(input, MembershipFunction::rising(30_000_000, 50_000_000));
        CarOppositeDistance { input, near, far }
    }
}

impl CarOppositeVelocity {
    /// Every handle points into `fz`'s arenas.
    pub open spec fn valid_for(&self, fz: &Fuzzy) -> bool {
        &&& self.input.id < fz.inputs@.len()
        &&& self.slow.id < fz.input_sets@.len()
        &&& self.medium.id < fz.input_sets@.len()
    }

    /// Bands for the oncoming car's velocity.
    pub fn new(fz: &mut Fuzzy) -> (r: Self)
        requires
            old(fz).wf(),
        ensures
            final(fz).wf(),
            final(fz).inputs@.len() >= old(fz).inputs@.len(),
            final(fz).outputs@.len() >= old(fz).outputs@.len(),
            final(fz).input_sets@.len() >= old(fz).input_sets@.len(),
            final(fz).output_sets@.len() >= old(fz).output_sets@.len(),
            final(fz).rules@.len() >= old(fz).rules@.len(),
            final(fz).rule_sets@.len() >= old(fz).rule_sets@.len(),
            r.valid_for(&*final(fz)),
            final(fz).input_sets@[r.slow.id as int].input == r.input,
            final(fz).input_sets@[r.medium.id as int].input == r.input,
    {
        let input = fz.add_input(0, 30_000_000);
        let slow = fz.add_input_set(input, MembershipFunction::falling(2_000_000, 3_000_000));
        let medium = fz.add_input_set(input, MembershipFunction::rising(2_000_000, 3_000_000));
        CarOppositeVelocity { input, slow, medium }
    }
}

impl RoadDeviation {
    /// Every handle points into `fz`'s arenas.
    pub open spec fn valid_for(&self, fz: &Fuzzy) -> bool {
        &&& self.input.id < fz.inputs@.len()
        &&& self.far_left.id < fz.input_sets@.len()
        &&& self.middle_left.id < fz.input_sets@.len()
        &&& self.left.id < fz.input_sets@.len()
        &&& self.middle.id < fz.input_sets@.len()
        &&& self.right.id < fz.input_sets@.len()
        &&& self.middle_right.id < fz.input_sets@.len()
        &&& self.far_right.id < fz.input_sets@.len()
    }

    /// Bands across the whole road; the right-hand bands mirror the
    /// left-hand ones for the drive back.
    pub fn new(fz: &mut Fuzzy) -> (r: Self)
        requires
            old(fz).wf(),
        ensures
            final(fz).wf(),
            final(fz).inputs@.len() >= old(fz).inputs@.len(),
            final(fz).outputs@.len() >= old(fz).outputs@.len(),
            final(fz).input_sets@.len() >= old(fz).input_sets@.len(),
            final(fz).output_sets@.len() >= old(fz).output_sets@.len(),
            final(fz).rules@.len() >= old(fz).rules@.len(),
            final(fz).rule_sets@.len() >= old(fz).rule_sets@.len(),
            r.valid_for(&*final(fz)),
            final(fz).input_sets@[r.far_left.id as int].input == r.input,
            final(fz).input_sets@[r.middle_left.id as int].input == r.input,
            final(fz).input_sets@[r.left.id as int].input == r.input,
            final(fz).input_sets@[r.middle.id as int].input == r.input,
            final(fz).input_sets@[r.right.id as int].input == r.input,
            final(fz).input_sets@[r.middle_right.id as int].input == r.input,
            final(fz).input_sets@[r.far_right.id as int].input == r.input,
    {
        let input = fz.add_input(0, 1_000_000);
        let far_left = fz.add_input_set(input, MembershipFunction::triangle(99_999, 100_000, 250_000));
        let middle_left = fz.add_input_set(input, MembershipFunction::triangle(100_000, 250_000, 400_000));
        let left = fz.add_input_set(input, MembershipFunction::falling(350_000, 500_000));
        let middle = fz.add_input_set(input, MembershipFunction::triangle(350_000, 500_000, 650_000));
        let right = fz.add_input_set(input, MembershipFunction::rising(500_000, 650_000));
        let middle_right = fz.add_input_set(input, MembershipFunction::triangle(600_000, 750_000, 900_000));
        let far_right = fz.add_input_set(input, MembershipFunction::triangle(750_000, 900_000, 900_001));
        RoadDeviation { input, far_left, middle_left, left, middle, right, middle_right, far_right }
    }
}

impl SideDeviation {
    /// Every handle points into `fz`'s arenas.
    pub open spec fn valid_for(&self, fz: &Fuzzy) -> bool {
        &&& self.input.id < fz.inputs@.len()
        &&& self.back.id < fz.input_sets@.len()
        &&& self.not_back.id < fz.input_sets@.len()
    }

    /// The overtaken car has fallen behind below minus two and a half
    /// metres.
    pub fn new(fz: &mut Fuzzy) -> (r: Self)
        requires
            old(fz).wf(),
        ensures
            final(fz).wf(),
            final(fz).inputs@.len() >= old(fz).inputs@.len(),
            final(fz).outputs@.len() >= old(fz).outputs@.len(),
            final(fz).input_sets@.len() >= old(fz).input_sets@.len(),
            final(fz).output_sets@.len() >= old(fz).output_sets@.len(),
            final(fz).rules@.len() >= old(fz).rules@.len(),
            final(fz).rule_sets@.len() >= old(fz).rule_sets@.len(),
            r.valid_for(&*final(fz)),
            final(fz).input_sets@[r.back.id as int].input == r.input,
            final(fz).input_sets@[r.not_back.id as int].input == r.input,
    {
        let input = fz.add_input(-100_000_000, 100_000_000);
        let back = fz.add_input_set(input, MembershipFunction::falling(-2_500_000, -1_500_000));
        let not_back = fz.add_input_set(input, MembershipFunction::rising(-2_500_000, -1_500_000));
        SideDeviation { input, back, not_back }
    }
}

impl Steering {
    /// Every handle points into `fz`'s arenas.
    pub open spec fn valid_for(&self, fz: &Fuzzy) -> bool {
        &&& self.output.id < fz.outputs@.len()
        &&& self.hard_right.id < fz.output_sets@.len()
        &&& self.right.id < fz.output_sets@.len()
        &&& self.straight.id < fz.output_sets@.len()
        &&& self.left.id < fz.output_sets@.len()
        &&& self.hard_left.id < fz.output_sets@.len()
    }

    /// Five steering bands around straight ahead.
    pub fn new(fz: &mut Fuzzy) -> (r: Self)
        requires
            old(fz).wf(),
        ensures
            final(fz).wf(),
            final(fz).inputs@.len() >= old(fz).inputs@.len(),
            final(fz).outputs@.len() >= old(fz).outputs@.len(),
            final(fz).input_sets@.len() >= old(fz).input_sets@.len(),
            final(fz).output_sets@.len() >= old(fz).output_sets@.len(),
            final(fz).rules@.len() >= old(fz).rules@.len(),
            final(fz).rule_sets@.len() >= old(fz).rule_sets@.len(),
            r.valid_for(&*final(fz)),
            final(fz).output_sets@[r.hard_right.id as int].output == r.output,
            final(fz).output_sets@[r.right.id as int].output == r.output,
            final(fz).output_sets@[r.straight.id as int].output == r.output,
            final(fz).output_sets@[r.left.id as int].output == r.output,
            final(fz).output_sets@[r.hard_left.id as int].output == r.output,
    {
        let output = fz.add_output(0, 1_000_000);
        let hard_right = fz.add_output_set(output, MembershipFunction::rising(600_000, 750_000));
        let right = fz.add_output_set(output, MembershipFunction::triangle(500_000, 600_000, 750_000));
        let straight = fz.add_output_set(output, MembershipFunction::triangle(400_000, 500_000, 600_000));
        let left = fz.add_output_set(output, MembershipFunction::triangle(250_000, 400_000, 500_000));
        let hard_left = fz.add_output_set(output, MembershipFunction::falling(250_000, 400_000));
        Steering { output, hard_right, right, straight, left, hard_left }
    }
}

impl GoLeftLane {
    /// Every handle points into `fz`'s arenas.
    pub open spec fn valid_for(&self, fz: &Fuzzy) -> bool {
        &&& self.output.id < fz.outputs@.len()
        &&& self.true_.id < fz.output_sets@.len()
        &&& self.false_.id < fz.output_sets@.len()
    }

    /// A boolean-coded signal.
    pub fn new(fz: &mut Fuzzy) -> (r: Self)
        requires
            old(fz).wf(),
        ensures
            final(fz).wf(),
            final(fz).inputs@.len() >= old(fz).inputs@.len(),
            final(fz).outputs@.len() >= old(fz).outputs@.len(),
            final(fz).input_sets@.len() >= old(fz).input_sets@.len(),
            final(fz).output_sets@.len() >= old(fz).output_sets@.len(),
            final(fz).rules@.len() >= old(fz).rules@.len(),
            final(fz).rule_sets@.len() >= old(fz).rule_sets@.len(),
            r.valid_for(&*final(fz)),
            final(fz).output_sets@[r.true_.id as int].output == r.output,
            final(fz).output_sets@[r.false_.id as int].output == r.output,
    {
        let output = fz.add_output(0, 1_000_000);
        let true_ = fz.add_output_set(output, true_fn());
        let false_ = fz.add_output_set(output, false_fn());
        GoLeftLane { output, true_, false_ }
    }
}

impl StayLeftLane {
    /// Every handle points into `fz`'s arenas.
    pub open spec fn valid_for(&self, fz: &Fuzzy) -> bool {
        &&& self.output.id < fz.outputs@.len()
        &&& self.true_.id < fz.output_sets@.len()
        &&& self.false_.id < fz.output_sets@.len()
    }

    /// A boolean-coded signal.
    pub fn new(fz: &mut Fuzzy) -> (r: Self)
        requires
            old(fz).wf(),
        ensures
            final(fz).wf(),
            final(fz).inputs@.len() >= old(fz).inputs@.len(),
            final(fz).outputs@.len() >= old(fz).outputs@.len(),
            final(fz).input_sets@.len() >= old(fz).input_sets@.len(),
            final(fz).output_sets@.len() >= old(fz).output_sets@.len(),
            final(fz).rules@.len() >= old(fz).rules@.len(),
            final(fz).rule_sets@.len() >= old(fz).rule_sets@.len(),
            r.valid_for(&*final(fz)),
            final(fz).output_sets@[r.true_.id as int].output == r.output,
            final(fz).output_sets@[r.false_.id as int].output == r.output,
    {
        let output = fz.add_output(0, 1_000_000);
        let true_ = fz.add_output_set(output, true_fn());
        let false_ = fz.add_output_set(output, false_fn());
        StayLeftLane { output, true_, false_ }
    }
}

impl BackToRightLane {
    /// Every handle points into `fz`'s arenas.
    pub open spec fn valid_for(&self, fz: &Fuzzy) -> bool {
        &&& self.output.id < fz.outputs@.len()
        &&& self.true_.id < fz.output_sets@.len()
        &&& self.false_.id < fz.output_sets@.len()
    }

    /// A boolean-coded signal.
    pub fn new(fz: &mut Fuzzy) -> (r: Self)
        requires
            old(fz).wf(),
        ensures
            final(fz).wf(),
            final(fz).inputs@.len() >= old(fz).inputs@.len(),
            final(fz).outputs@.len() >= old(fz).outputs@.len(),
            final(fz).input_sets@.len() >= old(fz).input_sets@.len(),
            final(fz).output_sets@.len() >= old(fz).output_sets@.len(),
            final(fz).rules@.len() >= old(fz).rules@.len(),
            final(fz).rule_sets@.len() >= old(fz).rule_sets@.len(),
            r.valid_for(&*final(fz)),
            final(fz).output_sets@[r.true_.id as int].output == r.output,
            final(fz).output_sets@[r.false_.id as int].output == r.output,
    {
        let output = fz.add_output(0, 1_000_000);
        let true_ = fz.add_output_set(output, true_fn());
        let false_ = fz.add_output_set(output, false_fn());
        BackToRightLane { output, true_, false_ }
    }
}

impl GoNormal {
    /// Every handle points into `fz`'s arenas.
    pub open spec fn valid_for(&self, fz: &Fuzzy) -> bool {
        &&& self.output.id < fz.outputs@.len()
        &&& self.true_.id < fz.output_sets@.len()
        &&& self.false_.id < fz.output_sets@.len()
    }

    /// A boolean-coded signal.
    pub fn new(fz: &mut Fuzzy) -> (r: Self)
        requires
            old(fz).wf(),
        ensures
            final(fz).wf(),
            final(fz).inputs@.len() >= old(fz).inputs@.len(),
            final(fz).outputs@.len() >= old(fz).outputs@.len(),
            final(fz).input_sets@.len() >= old(fz).input_sets@.len(),
            final(fz).output_sets@.len() >= old(fz).output_sets@.len(),
            final(fz).rules@.len() >= old(fz).rules@.len(),
            final(fz).rule_sets@.len() >= old(fz).rule_sets@.len(),
            r.valid_for(&*final(fz)),
            final(fz).output_sets@[r.true_.id as int].output == r.output,
            final(fz).output_sets@[r.false_.id as int].output == r.output,
    {
        let output = fz.add_output(0, 1_000_000);
        let true_ = fz.add_output_set(output, true_fn());
        let false_ = fz.add_output_set(output, false_fn());
        GoNormal { output, true_, false_ }
    }
}

/// Rules steering by the own-lane deviation.
fn add_steering_rules(fz: &mut Fuzzy, deviation: &Deviation, steering: &Steering) -> (ids: Vec<RuleId>)
    requires
        old(fz).wf(),
        deviation.valid_for(&*old(fz)),
        steering.valid_for(&*old(fz)),
    ensures
        final(fz).wf(),
        final(fz).inputs@ == old(fz).inputs@,
        final(fz).outputs@ == old(fz).outputs@,
        final(fz).input_sets@ == old(fz).input_sets@,
        final(fz).output_sets@ == old(fz).output_sets@,
        final(fz).rules@.len() >= old(fz).rules@.len(),
        final(fz).rule_sets@.len() == old(fz).rule_sets@.len(),
        forall|j: int| 0 <= j < ids@.len() ==> (#[trigger] ids@[j]).id < final(fz).rules@.len(),
{
    let mut ids: Vec<RuleId> = Vec::new();
    ids.push(fz.add_rule(&vec![deviation.far_left], steering.hard_right));
    ids.push(fz.add_rule(&vec![deviation.left], steering.right));
    ids.push(fz.add_rule(&vec![deviation.middle], steering.straight));
    ids.push(fz.add_rule(&vec![deviation.right], steering.left));
    ids.push(fz.add_rule(&vec![deviation.far_right], steering.hard_left));
    ids
}

/// Speed rules for a green light.
fn add_green_light_rules(fz: &mut Fuzzy, deviation: &Deviation, light_status: &LightStatus, car_distance: &CarDistance, speed: &Speed) -> (ids: Vec<RuleId>)
    requires
        old(fz).wf(),
        deviation.valid_for(&*old(fz)),
        light_status.valid_for(&*old(fz)),
        car_distance.valid_for(&*old(fz)),
        speed.valid_for(&*old(fz)),
    ensures
        final(fz).wf(),
        final(fz).inputs@ == old(fz).inputs@,
        final(fz).outputs@ == old(fz).outputs@,
        final(fz).input_sets@ == old(fz).input_sets@,
        final(fz).output_sets@ == old(fz).output_sets@,
        final(fz).rules@.len() >= old(fz).rules@.len(),
        final(fz).rule_sets@.len() == old(fz).rule_sets@.len(),
        forall|j: int| 0 <= j < ids@.len() ==> (#[trigger] ids@[j]).id < final(fz).rules@.len(),
{
    let mut ids: Vec<RuleId> = Vec::new();
    ids.push(fz.add_rule(&vec![light_status.green, deviation.middle, car_distance.far], speed.medium));
    ids.push(fz.add_rule(&vec![light_status.green, deviation.left, car_distance.far], speed.slow));
    ids.push(fz.add_rule(&vec![light_status.green, deviation.left, car_distance.medium], speed.slow));
    ids.push(fz.add_rule(&vec![light_status.green, deviation.right, car_distance.far], speed.slow));
    ids.push(fz.add_rule(&vec![light_status.green, deviation.right, car_distance.medium], speed.slow));
    ids.push(fz.add_rule(&vec![light_status.green, deviation.far_left, car_distance.far], speed.slower));
    ids.push(fz.add_rule(&vec![light_status.green, deviation.far_left, car_distance.medium], speed.slower));
    ids.push(fz.add_rule(&vec![light_status.green, deviation.far_right, car_distance.far], speed.slower));
    ids.push(fz.add_rule(&vec![light_status.green, deviation.far_right, car_distance.medium], speed.slower));
    ids
}

/// Speed rules while the light is still far away.
fn add_far_light_rules(fz: &mut Fuzzy, deviation: &Deviation, distance: &Distance, car_distance: &CarDistance, speed: &Speed) -> (ids: Vec<RuleId>)
    requires
        old(fz).wf(),
        deviation.valid_for(&*old(fz)),
        distance.valid_for(&*old(fz)),
        car_distance.valid_for(&*old(fz)),
        speed.valid_for(&*old(fz)),
    ensures
        final(fz).wf(),
        final(fz).inputs@ == old(fz).inputs@,
        final(fz).outputs@ == old(fz).outputs@,
        final(fz).input_sets@ == old(fz).input_sets@,
        final(fz).output_sets@ == old(fz).output_sets@,
        final(fz).rules@.len() >= old(fz).rules@.len(),
        final(fz).rule_sets@.len() == old(fz).rule_sets@.len(),
        forall|j: int| 0 <= j < ids@.len() ==> (#[trigger] ids@[j]).id < final(fz).rules@.len(),
{
    let mut ids: Vec<RuleId> = Vec::new();
    ids.push(fz.add_rule(&vec![distance.far, deviation.middle, car_distance.far], speed.medium));
    ids.push(fz.add_rule(&vec![distance.far, deviation.left, car_distance.far], speed.slow));
    ids.push(fz.add_rule(&vec![distance.far, deviation.left, car_distance.medium], speed.slower));
    ids.push(fz.add_rule(&vec![distance.far, deviation.right, car_distance.far], speed.slow));
    ids.push(fz.add_rule(&vec![distance.far, deviation.right, car_distance.medium], speed.slower));
    ids.push(fz.add_rule(&vec![distance.far, deviation.far_left, car_distance.medium_far], speed.slower));
    ids.push(fz.add_rule(&vec![distance.far, deviation.far_right, car_distance.medium_far], speed.slower));
    ids
}

/// Speed rules for a yellow light.
fn add_yellow_light_rules(fz: &mut Fuzzy, deviation: &Deviation, distance: &Distance, light_status: &LightStatus, car_distance: &CarDistance, speed: &Speed) -> (ids: Vec<RuleId>)
    requires
        old(fz).wf(),
        deviation.valid_for(&*old(fz)),
        distance.valid_for(&*old(fz)),
        light_status.valid_for(&*old(fz)),
        car_distance.valid_for(&*old(fz)),
        speed.valid_for(&*old(fz)),
    ensures
        final(fz).wf(),
        final(fz).inputs@ == old(fz).inputs@,
        final(fz).outputs@ == old(fz).outputs@,
        final(fz).input_sets@ == old(fz).input_sets@,
        final(fz).output_sets@ == old(fz).output_sets@,
        final(fz).rules@.len() >= old(fz).rules@.len(),
        final(fz).rule_sets@.len() == old(fz).rule_sets@.len(),
        forall|j: int| 0 <= j < ids@.len() ==> (#[trigger] ids@[j]).id < final(fz).rules@.len(),
{
    let mut ids: Vec<RuleId> = Vec::new();
    ids.push(fz.add_rule(&vec![light_status.yellow, distance.medium, deviation.middle, car_distance.far], speed.slow));
    ids.push(fz.add_rule(&vec![light_status.yellow, distance.medium, deviation.middle, car_distance.medium], speed.slower));
    ids.push(fz.add_rule(&vec![light_status.yellow, distance.medium, deviation.left, car_distance.medium_far], speed.slower));
    ids.push(fz.add_rule(&vec![light_status.yellow, distance.medium, deviation.right, car_distance.medium_far], speed.slower));
    ids.push(fz.add_rule(&vec![light_status.yellow, distance.medium, deviation.far_left, car_distance.medium_far], speed.slower));
    ids.push(fz.add_rule(&vec![light_status.yellow, distance.medium, deviation.far_right, car_distance.medium_far], speed.slower));
    ids.push(fz.add_rule(&vec![light_status.yellow, distance.near], speed.stop));
    ids
}

/// Speed rules for a red light.
fn add_red_light_rules(fz: &mut Fuzzy, deviation: &Deviation, distance: &Distance, light_status: &LightStatus, car_distance: &CarDistance, speed: &Speed) -> (ids: Vec<RuleId>)
    requires
        old(fz).wf(),
        deviation.valid_for(&*old(fz)),
        distance.valid_for(&*old(fz)),
        light_status.valid_for(&*old(fz)),
        car_distance.valid_for(&*old(fz)),
        speed.valid_for(&*old(fz)),
    ensures
        final(fz).wf(),
        final(fz).inputs@ == old(fz).inputs@,
        final(fz).outputs@ == old(fz).outputs@,
        final(fz).input_sets@ == old(fz).input_sets@,
        final(fz).output_sets@ == old(fz).output_sets@,
        final(fz).rules@.len() >= old(fz).rules@.len(),
        final(fz).rule_sets@.len() == old(fz).rule_sets@.len(),
        forall|j: int| 0 <= j < ids@.len() ==> (#[trigger] ids@[j]).id < final(fz).rules@.len(),
{
    let mut ids: Vec<RuleId> = Vec::new();
    ids.push(fz.add_rule(&vec![light_status.red, distance.medium, deviation.middle, car_distance.far], speed.slow));
    ids.push(fz.add_rule(&vec![light_status.red, distance.medium, deviation.middle, car_distance.medium], speed.slower));
    ids.push(fz.add_rule(&vec![light_status.red, distance.medium, deviation.left, car_distance.medium_far], speed.slower));
    ids.push(fz.add_rule(&vec![light_status.red, distance.medium, deviation.right, car_distance.medium_far], speed.slower));
    ids.push(fz.add_rule(&vec![light_status.red, distance.medium, deviation.far_left, car_distance.medium_far], speed.slower));
    ids.push(fz.add_rule(&vec![light_status.red, distance.medium, deviation.far_right, car_distance.medium_far], speed.slower));
    ids.push(fz.add_rule(&vec![light_status.red, distance.near], speed.stop));
    ids
}

/// Speed rules around the light's changes.
fn add_changing_light_rules(fz: &mut Fuzzy, deviation: &Deviation, distance: &Distance, light_status: &LightStatus, car_distance: &CarDistance, speed: &Speed) -> (ids: Vec<RuleId>)
    requires
        old(fz).wf(),
        deviation.valid_for(&*old(fz)),
        distance.valid_for(&*old(fz)),
        light_status.valid_for(&*old(fz)),
        car_distance.valid_for(&*old(fz)),
        speed.valid_for(&*old(fz)),
    ensures
        final(fz).wf(),
        final(fz).inputs@ == old(fz).inputs@,
        final(fz).outputs@ == old(fz).outputs@,
        final(fz).input_sets@ == old(fz).input_sets@,
        final(fz).output_sets@ == old(fz).output_sets@,
        final(fz).rules@.len() >= old(fz).rules@.len(),
        final(fz).rule_sets@.len() == old(fz).rule_sets@.len(),
        forall|j: int| 0 <= j < ids@.len() ==> (#[trigger] ids@[j]).id < final(fz).rules@.len(),
{
    let mut ids: Vec<RuleId> = Vec::new();
    ids.push(fz.add_rule(&vec![light_status.less_green, distance.medium, deviation.middle, car_distance.far], speed.medium));
    ids.push(fz.add_rule(&vec![light_status.less_green, distance.medium, deviation.left, car_distance.far], speed.slow));
    ids.push(fz.add_rule(&vec![light_status.less_green, distance.medium, deviation.left, car_distance.medium], speed.slower));
    ids.push(fz.add_rule(&vec![light_status.less_green, distance.medium, deviation.right, car_distance.far], speed.slow));
    ids.push(fz.add_rule(&vec![light_status.less_green, distance.medium, deviation.right, car_distance.medium], speed.slower));
    ids.push(fz.add_rule(&vec![light_status.less_green, distance.medium, deviation.far_left, car_distance.medium_far], speed.slower));
    ids.push(fz.add_rule(&vec![light_status.less_green, distance.medium, deviation.far_right, car_distance.medium_far], speed.slower));
    ids.push(fz.add_rule(&vec![light_status.less_green, distance.near, deviation.middle, car_distance.medium_far], speed.slower));
    ids.push(fz.add_rule(&vec![light_status.less_green, distance.near, deviation.left, car_distance.medium_far], speed.slower));
    ids.push(fz.add_rule(&vec![light_status.less_green, distance.near, deviation.right, car_distance.medium_far], speed.slower));
    ids.push(fz.add_rule(&vec![light_status.less_green, distance.near, deviation.far_left], speed.stop));
    ids.push(fz.add_rule(&vec![light_status.less_green, distance.near, deviation.far_right], speed.stop));
    ids.push(fz.add_rule(&vec![light_status.less_red, distance.medium, deviation.middle, car_distance.far], speed.medium));
    ids.push(fz.add_rule(&vec![light_status.less_red, distance.medium, deviation.middle, car_distance.medium], speed.medium));
    ids.push(fz.add_rule(&vec![light_status.less_red, distance.medium, deviation.left, car_distance.medium_far], speed.slow));
    ids.push(fz.add_rule(&vec![light_status.less_red, distance.medium, deviation.right, car_distance.medium_far], speed.slow));
    ids.push(fz.add_rule(&vec![light_status.less_red, distance.medium, deviation.far_left, car_distance.medium_far], speed.slower));
    ids.push(fz.add_rule(&vec![light_status.less_red, distance.medium, deviation.far_right, car_distance.medium_far], speed.slower));
    ids.push(fz.add_rule(&vec![light_status.less_red, distance.near, deviation.far_right], speed.stop));
    ids.push(fz.add_rule(&vec![car_distance.near], speed.stop));
    ids
}

/// When overtaking may start.
fn add_overtake_entry_rules(fz: &mut Fuzzy, distance: &Distance, car_distance: &CarDistance, car_opposite_distance: &CarOppositeDistance, car_velocity: &CarVeclocity, go_left_lane: &GoLeftLane) -> (ids: Vec<RuleId>)
    requires
        old(fz).wf(),
        distance.valid_for(&*old(fz)),
        car_distance.valid_for(&*old(fz)),
        car_opposite_distance.valid_for(&*old(fz)),
        car_velocity.valid_for(&*old(fz)),
        go_left_lane.valid_for(&*old(fz)),
    ensures
        final(fz).wf(),
        final(fz).inputs@ == old(fz).inputs@,
        final(fz).outputs@ == old(fz).outputs@,
        final(fz).input_sets@ == old(fz).input_sets@,
        final(fz).output_sets@ == old(fz).output_sets@,
        final(fz).rules@.len() >= old(fz).rules@.len(),
        final(fz).rule_sets@.len() == old(fz).rule_sets@.len(),
        forall|j: int| 0 <= j < ids@.len() ==> (#[trigger] ids@[j]).id < final(fz).rules@.len(),
{
    let mut ids: Vec<RuleId> = Vec::new();
    ids.push(fz.add_rule(&vec![distance.far, car_distance.near_medium, car_opposite_distance.far, car_velocity.slow], go_left_lane.true_));
    ids.push(fz.add_rule(&vec![car_opposite_distance.near], go_left_lane.false_));
    ids.push(fz.add_rule(&vec![car_distance.medium_far], go_left_lane.false_));
    ids.push(fz.add_rule(&vec![distance.medium], go_left_lane.false_));
    ids.push(fz.add_rule(&vec![distance.near], go_left_lane.false_));
    ids
}

/// Crossing over to the left lane.
fn add_go_left_rules(fz: &mut Fuzzy, road_deviation: &RoadDeviation, steering: &Steering, speed: &Speed, left_deviation: &LeftDeviation, stay_left_lane: &StayLeftLane) -> (ids: Vec<RuleId>)
    requires
        old(fz).wf(),
        road_deviation.valid_for(&*old(fz)),
        steering.valid_for(&*old(fz)),
        speed.valid_for(&*old(fz)),
        left_deviation.valid_for(&*old(fz)),
        stay_left_lane.valid_for(&*old(fz)),
    ensures
        final(fz).wf(),
        final(fz).inputs@ == old(fz).inputs@,
        final(fz).outputs@ == old(fz).outputs@,
        final(fz).input_sets@ == old(fz).input_sets@,
        final(fz).output_sets@ == old(fz).output_sets@,
        final(fz).rules@.len() >= old(fz).rules@.len(),
        final(fz).rule_sets@.len() == old(fz).rule_sets@.len(),
        forall|j: int| 0 <= j < ids@.len() ==> (#[trigger] ids@[j]).id < final(fz).rules@.len(),
{
    let mut ids: Vec<RuleId> = Vec::new();
    ids.push(fz.add_rule(&vec![road_deviation.far_left], steering.hard_right));
    ids.push(fz.add_rule(&vec![road_deviation.far_left], speed.slow));
    ids.push(fz.add_rule(&vec![road_deviation.middle_left], steering.straight));
    ids.push(fz.add_rule(&vec![road_deviation.middle_left], speed.medium));
    ids.push(fz.add_rule(&vec![road_deviation.middle], steering.straight));
    ids.push(fz.add_rule(&vec![road_deviation.middle], speed.medium));
    ids.push(fz.add_rule(&vec![road_deviation.right], steering.left));
    ids.push(fz.add_rule(&vec![road_deviation.right], speed.slow));
    ids.push(fz.add_rule(&vec![left_deviation.middle], stay_left_lane.true_));
    ids.push(fz.add_rule(&vec![left_deviation.left], stay_left_lane.true_));
    ids.push(fz.add_rule(&vec![left_deviation.far_left], stay_left_lane.false_));
    ids.push(fz.add_rule(&vec![left_deviation.right], stay_left_lane.false_));
    ids.push(fz.add_rule(&vec![left_deviation.right], stay_left_lane.false_));
    ids
}

/// Driving in the left lane until the overtaken car falls behind.
fn add_stay_left_rules(fz: &mut Fuzzy, left_deviation: &LeftDeviation, steering: &Steering, speed: &Speed, side_deviation: &SideDeviation, car_distance: &CarDistance, back_to_right_lane: &BackToRightLane) -> (ids: Vec<RuleId>)
    requires
        old(fz).wf(),
        left_deviation.valid_for(&*old(fz)),
        steering.valid_for(&*old(fz)),
        speed.valid_for(&*old(fz)),
        side_deviation.valid_for(&*old(fz)),
        car_distance.valid_for(&*old(fz)),
        back_to_right_lane.valid_for(&*old(fz)),
    ensures
        final(fz).wf(),
        final(fz).inputs@ == old(fz).inputs@,
        final(fz).outputs@ == old(fz).outputs@,
        final(fz).input_sets@ == old(fz).input_sets@,
        final(fz).output_sets@ == old(fz).output_sets@,
        final(fz).rules@.len() >= old(fz).rules@.len(),
        final(fz).rule_sets@.len() == old(fz).rule_sets@.len(),
        forall|j: int| 0 <= j < ids@.len() ==> (#[trigger] ids@[j]).id < final(fz).rules@.len(),
{
    let mut ids: Vec<RuleId> = Vec::new();
    ids.push(fz.add_rule(&vec![left_deviation.far_left], steering.hard_right));
    ids.push(fz.add_rule(&vec![left_deviation.left], steering.right));
    ids.push(fz.add_rule(&vec![left_deviation.middle], steering.straight));
    ids.push(fz.add_rule(&vec![left_deviation.right], steering.left));
    ids.push(fz.add_rule(&vec![left_deviation.far_right], steering.hard_left));
    ids.push(fz.add_rule(&vec![left_deviation.middle], speed.medium));
    ids.push(fz.add_rule(&vec![left_deviation.left], speed.slow));
    ids.push(fz.add_rule(&vec![left_deviation.left], speed.slow));
    ids.push(fz.add_rule(&vec![left_deviation.right], speed.slow));
    ids.push(fz.add_rule(&vec![left_deviation.right], speed.slow));
    ids.push(fz.add_rule(&vec![left_deviation.far_left], speed.slower));
    ids.push(fz.add_rule(&vec![left_deviation.far_left], speed.slower));
    ids.push(fz.add_rule(&vec![left_deviation.far_right], speed.slower));
    ids.push(fz.add_rule(&vec![left_deviation.far_right], speed.slower));
    ids.push(fz.add_rule(&vec![side_deviation.back, car_distance.medium_far], back_to_right_lane.true_));
    ids.push(fz.add_rule(&vec![side_deviation.not_back], back_to_right_lane.false_));
    ids.push(fz.add_rule(&vec![car_distance.near], back_to_right_lane.false_));
    ids
}

/// Returning to the right lane.
fn add_back_right_rules(fz: &mut Fuzzy, road_deviation: &RoadDeviation, deviation: &Deviation, steering: &Steering, speed: &Speed, go_normal: &GoNormal) -> (ids: Vec<RuleId>)
    requires
        old(fz).wf(),
        road_deviation.valid_for(&*old(fz)),
        deviation.valid_for(&*old(fz)),
        steering.valid_for(&*old(fz)),
        speed.valid_for(&*old(fz)),
        go_normal.valid_for(&*old(fz)),
    ensures
        final(fz).wf(),
        final(fz).inputs@ == old(fz).inputs@,
        final(fz).outputs@ == old(fz).outputs@,
        final(fz).input_sets@ == old(fz).input_sets@,
        final(fz).output_sets@ == old(fz).output_sets@,
        final(fz).rules@.len() >= old(fz).rules@.len(),
        final(fz).rule_sets@.len() == old(fz).rule_sets@.len(),
        forall|j: int| 0 <= j < ids@.len() ==> (#[trigger] ids@[j]).id < final(fz).rules@.len(),
{
    let mut ids: Vec<RuleId> = Vec::new();
    ids.push(fz.add_rule(&vec![road_deviation.far_right], steering.hard_left));
    ids.push(fz.add_rule(&vec![road_deviation.far_right], speed.slow));
    ids.push(fz.add_rule(&vec![road_deviation.middle_right], steering.straight));
    ids.push(fz.add_rule(&vec![road_deviation.middle_right], speed.medium));
    ids.push(fz.add_rule(&vec![road_deviation.middle], steering.straight));
    ids.push(fz.add_rule(&vec![road_deviation.middle], speed.medium));
    ids.push(fz.add_rule(&vec![road_deviation.left], steering.right));
    ids.push(fz.add_rule(&vec![road_deviation.left], speed.slow));
    ids.push(fz.add_rule(&vec![deviation.middle], go_normal.true_));
    ids.push(fz.add_rule(&vec![deviation.right], go_normal.true_));
    ids.push(fz.add_rule(&vec![deviation.far_right], go_normal.true_));
    ids.push(fz.add_rule(&vec![deviation.left], go_normal.false_));
    ids.push(fz.add_rule(&vec![deviation.far_left], go_normal.false_));
    ids
}

/// The rules of `x` followed by those of `y`, as one list.
fn concat_rules(x: &Vec<RuleId>, y: &Vec<RuleId>) -> (r: Vec<RuleId>)
    ensures
        r@ == x@ + y@,
{
    let mut r: Vec<RuleId> = Vec::new();
    let mut i: usize = 0;
    while i < x.len()
        invariant
            i <= x@.len(),
            r@ =~= x@.subrange(0, i as int),
        decreases x@.len() - i,
    {
        r.push(x[i]);
        i = i + 1;
    }
    let mut j: usize = 0;
    while j < y.len()
        invariant
            j <= y@.len(),
            r@ =~= x@ + y@.subrange(0, j as int),
        decreases y@.len() - j,
    {
        r.push(y[j]);
        j = j + 1;
    }
    proof {
        assert(r@ =~= x@ + y@);
    }
    r
}

/// The complete fuzzy configuration of one car controller: the engine
/// with every variable, membership set and rule registered, and the
/// five rule sets the state machine switches between.
pub struct CarFuzzy {
    pub fuzzy: Fuzzy,
    pub deviation: Deviation,
    pub steering: Steering,
    pub distance: Distance,
    pub speed: Speed,
    pub light_status: LightStatus,
    pub car_distance: CarDistance,
    pub car_velocity: CarVeclocity,
    pub car_opposite_distance: CarOppositeDistance,
    pub car_opposite_velocity: CarOppositeVelocity,
    pub road_deviation: RoadDeviation,
    pub left_deviation: LeftDeviation,
    pub side_deviation: SideDeviation,
    pub go_left_lane: GoLeftLane,
    pub stay_left_lane: StayLeftLane,
    pub back_to_right_lane: BackToRightLane,
    pub go_normal: GoNormal,
    pub simple_rule_set: RuleSetId,
    pub normal_rule_set: RuleSetId,
    pub go_left_lane_rule_set: RuleSetId,
    pub stay_left_lane_rule_set: RuleSetId,
    pub back_to_right_lane_rule_set: RuleSetId,
}

impl CarFuzzy {
    /// The engine is well-formed and every handle a controller feeds
    /// or reads is valid for it.
    pub open spec fn wf(&self) -> bool {
        &&& self.fuzzy.wf()
        &&& self.deviation.valid_for(&self.fuzzy)
        &&& self.steering.valid_for(&self.fuzzy)
        &&& self.distance.valid_for(&self.fuzzy)
        &&& self.speed.valid_for(&self.fuzzy)
        &&& self.light_status.valid_for(&self.fuzzy)
        &&& self.car_distance.valid_for(&self.fuzzy)
        &&& self.car_velocity.valid_for(&self.fuzzy)
        &&& self.car_opposite_distance.valid_for(&self.fuzzy)
        &&& self.car_opposite_velocity.valid_for(&self.fuzzy)
        &&& self.road_deviation.valid_for(&self.fuzzy)
        &&& self.left_deviation.valid_for(&self.fuzzy)
        &&& self.side_deviation.valid_for(&self.fuzzy)
        &&& self.go_left_lane.valid_for(&self.fuzzy)
        &&& self.stay_left_lane.valid_for(&self.fuzzy)
        &&& self.back_to_right_lane.valid_for(&self.fuzzy)
        &&& self.go_normal.valid_for(&self.fuzzy)
        &&& self.simple_rule_set.id < self.fuzzy.rule_sets@.len()
        &&& self.normal_rule_set.id < self.fuzzy.rule_sets@.len()
        &&& self.go_left_lane_rule_set.id < self.fuzzy.rule_sets@.len()
        &&& self.stay_left_lane_rule_set.id < self.fuzzy.rule_sets@.len()
        &&& self.back_to_right_lane_rule_set.id < self.fuzzy.rule_sets@.len()
    }

    /// Builds the whole configuration from an empty engine.  The
    /// cruise rules form the rule set of slow cars; normal cars add
    /// the overtaking entry rules, and the three lane-change states
    /// each get a rule set of their own.
    pub fn new() -> (r: Self)
        ensures
            r.wf(),
    {
        let mut fuzzy = Fuzzy::new();

        let deviation = Deviation::new(&mut fuzzy);
        let steering = Steering::new(&mut fuzzy);
        let distance = Distance::new(&mut fuzzy);
        let speed = Speed::new(&mut fuzzy);
        let light_status = LightStatus::new(&mut fuzzy);
        let car_distance = CarDistance::new(&mut fuzzy);
        let car_velocity = CarVeclocity::new(&mut fuzzy);
        let car_opposite_distance = CarOppositeDistance::new(&mut fuzzy);
        let car_opposite_velocity = CarOppositeVelocity::new(&mut fuzzy);
        let road_deviation = RoadDeviation::new(&mut fuzzy);
        let go_left_lane = GoLeftLane::new(&mut fuzzy);
        let stay_left_lane = StayLeftLane::new(&mut fuzzy);
        let back_to_right_lane = BackToRightLane::new(&mut fuzzy);
        let go_normal = GoNormal::new(&mut fuzzy);
        let left_deviation = LeftDeviation::new(&mut fuzzy);
        let side_deviation = SideDeviation::new(&mut fuzzy);

        let mut cruise = add_steering_rules(&mut fuzzy, &deviation, &steering);
        let r1 = add_green_light_rules(&mut fuzzy, &deviation, &light_status, &car_distance, &speed);
        cruise = concat_rules(&cruise, &r1);
        let r2 = add_far_light_rules(&mut fuzzy, &deviation, &distance, &car_distance, &speed);
        cruise = concat_rules(&cruise, &r2);
        let r3 = add_yellow_light_rules(
            &mut fuzzy,
            &deviation,
            &distance,
            &light_status,
            &car_distance,
            &speed,
        );
        cruise = concat_rules(&cruise, &r3);
        let r4 = add_red_light_rules(
            &mut fuzzy,
            &deviation,
            &distance,
            &light_status,
            &car_distance,
            &speed,
        );
        cruise = concat_rules(&cruise, &r4);
        let r5 = add_changing_light_rules(
            &mut fuzzy,
            &deviation,
            &distance,
            &light_status,
            &car_distance,
            &speed,
        );
        cruise = concat_rules(&cruise, &r5);

        let entry = add_overtake_entry_rules(
            &mut fuzzy,
            &distance,
            &car_distance,
            &car_opposite_distance,
            &car_velocity,
            &go_left_lane,
        );
        let with_entry = concat_rules(&cruise, &entry);

        let go_left = add_go_left_rules(
            &mut fuzzy,
            &road_deviation,
            &steering,
            &speed,
            &left_deviation,
            &stay_left_lane,
        );
        let stay_left = add_stay_left_rules(
            &mut fuzzy,
            &left_deviation,
            &steering,
            &speed,
            &side_deviation,
            &car_distance,
            &back_to_right_lane,
        );
        let back_right = add_back_right_rules(
            &mut fuzzy,
            &road_deviation,
            &deviation,
            &steering,
            &speed,
            &go_normal,
        );

        let simple_rule_set = fuzzy.add_rule_set(&cruise);
        let normal_rule_set = fuzzy.add_rule_set(&with_entry);
        let go_left_lane_rule_set = fuzzy.add_rule_set(&go_left);
        let stay_left_lane_rule_set = fuzzy.add_rule_set(&stay_left);
        let back_to_right_lane_rule_set = fuzzy.add_rule_set(&back_right);

        Self {
            fuzzy,
            deviation,
            steering,
            distance,
            speed,
            light_status,
            car_distance,
            car_velocity,
            car_opposite_distance,
            car_opposite_velocity,
            road_deviation,
            left_deviation,
            side_deviation,
            go_left_lane,
            stay_left_lane,
            back_to_right_lane,
            go_normal,
            simple_rule_set,
            normal_rule_set,
            go_left_lane_rule_set,
            stay_left_lane_rule_set,
            back_to_right_lane_rule_set,
        }
    }
}

} // verus!
