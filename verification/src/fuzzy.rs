//! The fuzzy engine's data model and setup-time API.
//!
//! All quantities are fixed-point values in micro-units: `SCALE`
//! micro-units stand for one unit, so a membership degree lies between
//! `0` and `SCALE`.  Membership functions are piecewise-linear curves
//! given by a list of breakpoints; between two neighbouring breakpoints
//! the curve is the integer linear interpolant, before the first and
//! after the last it is constant.

pub mod math;

use vstd::prelude::*;

verus! {

/// Number of micro-units in one unit.  A membership degree of `SCALE`
/// means full membership.
pub const SCALE: i64 = 1_000_000;

/// Every variable bound, every breakpoint coordinate and every input
/// value stays within this many micro-units, so that the centroid sums
/// fit comfortably in 128-bit intermediates.
pub const VALUE_LIMIT: i64 = 1_000_000_000_000;

#[derive(Copy, Clone)]
pub struct InputId {
    pub id: usize,
}

#[derive(Copy, Clone)]
pub struct OutputId {
    pub id: usize,
}

#[derive(Copy, Clone)]
pub struct InputSetId {
    pub id: usize,
}

#[derive(Copy, Clone)]
pub struct OutputSetId {
    pub id: usize,
}

#[derive(Copy, Clone)]
pub struct RuleId {
    pub id: usize,
}

#[derive(Copy, Clone)]
pub struct RuleSetId {
    pub id: usize,
}

/// A defuzzified output value.  `NonFinite` records that the centroid
/// was a division by zero (no rule put any area under the output's
/// envelope); callers must check finiteness and substitute a fallback.
#[derive(Copy, Clone, Debug, PartialEq, Eq, Structural)]
pub enum CrispValue {
    Finite(i64),
    NonFinite,
}

impl CrispValue {
    /// True exactly when the value carries a finite centroid.
    pub fn is_finite(&self) -> (r: bool)
        ensures
            r <==> (self is Finite),
    {
        match self {
            CrispValue::Finite(_) => true,
            CrispValue::NonFinite => false,
        }
    }
}

/// A piecewise-linear membership function: at `x <= points[0].0` it is
/// `points[0].1`, at `x >= points[last].0` it is `points[last].1`, and
/// between two neighbouring breakpoints it interpolates linearly
/// (rounding the interpolant down to a micro-unit).
pub struct MembershipFunction {
    pub points: Vec<(i64, i64)>,
}

/// Well-formed breakpoint list: non-empty, abscissas strictly increasing
/// and bounded, ordinates are degrees in `[0, SCALE]`.
pub open spec fn pl_wf(ps: Seq<(i64, i64)>) -> bool {
    &&& ps.len() >= 1
    &&& forall|i: int|
        0 <= i < ps.len() ==> -VALUE_LIMIT <= (#[trigger] ps[i]).0 <= VALUE_LIMIT && 0 <= ps[i].1
            <= SCALE
    &&& forall|i: int| 0 < i < ps.len() ==> (#[trigger] ps[i]).0 > ps[i - 1].0
}

/// The integer linear interpolant between `(x1, y1)` and `(x2, y2)`,
/// evaluated at `x1 <= x <= x2`; the fractional part of a micro-unit is
/// dropped.
pub open spec fn interp_spec(x1: int, y1: int, x2: int, y2: int, x: int) -> int {
    if y2 >= y1 {
        y1 + ((x - x1) * (y2 - y1)) / (x2 - x1)
    } else {
        y1 - ((x - x1) * (y1 - y2)) / (x2 - x1)
    }
}

/// Value of the piecewise-linear curve `ps` at `x`.
pub open spec fn pl_eval(ps: Seq<(i64, i64)>, x: int) -> int
    decreases ps.len(),
{
    if ps.len() == 0 {
        0
    } else if x <= ps[0].0 {
        ps[0].1 as int
    } else if ps.len() == 1 {
        ps[0].1 as int
    } else if x <= ps[1].0 {
        interp_spec(ps[0].0 as int, ps[0].1 as int, ps[1].0 as int, ps[1].1 as int, x)
    } else {
        pl_eval(ps.drop_first(), x)
    }
}

proof fn lemma_interp_bounds(x1: int, y1: int, x2: int, y2: int, x: int)
    requires
        x1 < x2,
        x1 <= x <= x2,
        0 <= y1,
        0 <= y2,
    ensures
        interp_spec(x1, y1, x2, y2, x) >= 0,
        interp_spec(x1, y1, x2, y2, x) <= y1 || interp_spec(x1, y1, x2, y2, x) <= y2,
{
    let d = x2 - x1;
    let dx = x - x1;
    if y2 >= y1 {
        let dy = y2 - y1;
        assert(0 <= dx * dy <= d * dy) by (nonlinear_arith)
            requires
                0 <= dx <= d,
                0 <= dy,
        ;
        vstd::arithmetic::div_mod::lemma_div_is_ordered(dx * dy, d * dy, d);
        vstd::arithmetic::div_mod::lemma_div_by_multiple(dy, d);
        vstd::arithmetic::div_mod::lemma_div_pos_is_pos(dx * dy, d);
    } else {
        let dy = y1 - y2;
        assert(0 <= dx * dy <= d * dy) by (nonlinear_arith)
            requires
                0 <= dx <= d,
                0 <= dy,
        ;
        vstd::arithmetic::div_mod::lemma_div_is_ordered(dx * dy, d * dy, d);
        vstd::arithmetic::div_mod::lemma_div_by_multiple(dy, d);
        vstd::arithmetic::div_mod::lemma_div_pos_is_pos(dx * dy, d);
    }
}

/// A well-formed curve only takes degree values in `[0, SCALE]`.
pub proof fn lemma_pl_eval_bounds(ps: Seq<(i64, i64)>, x: int)
    requires
        pl_wf(ps),
    ensures
        0 <= pl_eval(ps, x) <= SCALE,
    decreases ps.len(),
{
    if x <= ps[0].0 {
    } else if ps.len() == 1 {
    } else if x <= ps[1].0 {
        lemma_interp_bounds(ps[0].0 as int, ps[0].1 as int, ps[1].0 as int, ps[1].1 as int, x);
    } else {
        assert(pl_wf(ps.drop_first()));
        lemma_pl_eval_bounds(ps.drop_first(), x);
    }
}

fn interp(x1: i64, y1: i64, x2: i64, y2: i64, x: i64) -> (r: i64)
    requires
        -VALUE_LIMIT <= x1 < x2 <= VALUE_LIMIT,
        x1 <= x <= x2,
        0 <= y1 <= SCALE,
        0 <= y2 <= SCALE,
    ensures
        r == interp_spec(x1 as int, y1 as int, x2 as int, y2 as int, x as int),
        0 <= r <= SCALE,
{
    proof {
        lemma_interp_bounds(x1 as int, y1 as int, x2 as int, y2 as int, x as int);
    }
    let dx = (x - x1) as u64;
    let den = (x2 - x1) as u64;
    if y2 >= y1 {
        let dy = (y2 - y1) as u64;
        proof {
            assert(dx * dy <= 2_000_000_000_000 * 1_000_000) by (nonlinear_arith)
                requires
                    dx <= 2_000_000_000_000,
                    dy <= 1_000_000,
            ;
        }
        let q = (dx * dy) / den;
        y1 + q as i64
    } else {
        let dy = (y1 - y2) as u64;
        proof {
            assert(dx * dy <= 2_000_000_000_000 * 1_000_000) by (nonlinear_arith)
                requires
                    dx <= 2_000_000_000_000,
                    dy <= 1_000_000,
            ;
        }
        let q = (dx * dy) / den;
        y1 - q as i64
    }
}

impl MembershipFunction {
    pub open spec fn wf(&self) -> bool {
        pl_wf(self.points@)
    }

    /// The degree this membership function assigns to `x`.
    pub open spec fn spec_eval(&self, x: int) -> int {
        pl_eval(self.points@, x)
    }

    /// Wraps a breakpoint list as a membership function.
    pub fn from_points(points: Vec<(i64, i64)>) -> (r: MembershipFunction)
        requires
            pl_wf(points@),
        ensures
            r.wf(),
            r.points@ == points@,
    {
        MembershipFunction { points }
    }

    /// The constant function with degree `y` everywhere.
    pub fn constant(y: i64) -> (r: MembershipFunction)
        requires
            0 <= y <= SCALE,
        ensures
            r.wf(),
            r.points@ =~= seq![(0i64, y)],
            forall|x: int| r.spec_eval(x) == y,
    {
        let mut points: Vec<(i64, i64)> = Vec::new();
        points.push((0, y));
        MembershipFunction { points }
    }

    /// Full membership up to `x1`, falling linearly to none at `x2`
    /// (a left shoulder).
    pub fn falling(x1: i64, x2: i64) -> (r: MembershipFunction)
        requires
            -VALUE_LIMIT <= x1 < x2 <= VALUE_LIMIT,
        ensures
            r.wf(),
            r.points@ == seq![(x1, SCALE), (x2, 0i64)],
    {
        let mut points: Vec<(i64, i64)> = Vec::new();
        points.push((x1, SCALE));
        points.push((x2, 0));
        proof {
            assert(points@ =~= seq![(x1, SCALE), (x2, 0i64)]);
        }
        MembershipFunction { points }
    }

    /// No membership up to `x1`, rising linearly to full at `x2`
    /// (a right shoulder).
    pub fn rising(x1: i64, x2: i64) -> (r: MembershipFunction)
        requires
            -VALUE_LIMIT <= x1 < x2 <= VALUE_LIMIT,
        ensures
            r.wf(),
            r.points@ == seq![(x1, 0i64), (x2, SCALE)],
    {
        let mut points: Vec<(i64, i64)> = Vec::new();
        points.push((x1, 0));
        points.push((x2, SCALE));
        proof {
            assert(points@ =~= seq![(x1, 0i64), (x2, SCALE)]);
        }
        MembershipFunction { points }
    }

    /// A triangle: none outside `[x1, x3]`, full at the peak `x2`.
    pub fn triangle(x1: i64, x2: i64, x3: i64) -> (r: MembershipFunction)
        requires
            -VALUE_LIMIT <= x1 < x2 < x3 <= VALUE_LIMIT,
        ensures
            r.wf(),
            r.points@ == seq![(x1, 0i64), (x2, SCALE), (x3, 0i64)],
    {
        let mut points: Vec<(i64, i64)> = Vec::new();
        points.push((x1, 0));
        points.push((x2, SCALE));
        points.push((x3, 0));
        proof {
            assert(points@ =~= seq![(x1, 0i64), (x2, SCALE), (x3, 0i64)]);
        }
        MembershipFunction { points }
    }

    /// A trapezoid: none outside `[x1, x4]`, full on `[x2, x3]`.
    pub fn trapezoid(x1: i64, x2: i64, x3: i64, x4: i64) -> (r: MembershipFunction)
        requires
            -VALUE_LIMIT <= x1 < x2 < x3 < x4 <= VALUE_LIMIT,
        ensures
            r.wf(),
            r.points@ == seq![(x1, 0i64), (x2, SCALE), (x3, SCALE), (x4, 0i64)],
    {
        let mut points: Vec<(i64, i64)> = Vec::new();
        points.push((x1, 0));
        points.push((x2, SCALE));
        points.push((x3, SCALE));
        points.push((x4, 0));
        proof {
            assert(points@ =~= seq![(x1, 0i64), (x2, SCALE), (x3, SCALE), (x4, 0i64)]);
        }
        MembershipFunction { points }
    }

    /// Evaluates the curve at `x`.
    pub fn eval(&self, x: i64) -> (r: i64)
        requires
            self.wf(),
            -VALUE_LIMIT <= x <= VALUE_LIMIT,
        ensures
            r == self.spec_eval(x as int),
            0 <= r <= SCALE,
    {
        proof {
            lemma_pl_eval_bounds(self.points@, x as int);
        }
        let n = self.points.len();
        let p0 = self.points[0];
        if x <= p0.0 {
            return p0.1;
        }
        proof {
            assert(self.points@.skip(0) =~= self.points@);
        }
        let mut i: usize = 1;
        while i < n
            invariant
                1 <= i <= n,
                n == self.points@.len(),
                self.wf(),
                -VALUE_LIMIT <= x <= VALUE_LIMIT,
                x > self.points@[i - 1].0,
                pl_eval(self.points@, x as int) == pl_eval(self.points@.skip(i - 1), x as int),
            decreases n - i,
        {
            let prev = self.points[i - 1];
            let cur = self.points[i];
            if x <= cur.0 {
                proof {
                    let s = self.points@.skip(i - 1);
                    assert(s[0] == self.points@[i - 1]);
                    assert(s[1] == self.points@[i as int]);
                }
                return interp(prev.0, prev.1, cur.0, cur.1, x);
            }
            proof {
                let s = self.points@.skip(i - 1);
                assert(s[0] == self.points@[i - 1]);
                assert(s[1] == self.points@[i as int]);
                assert(s.drop_first() =~= self.points@.skip(i as int));
            }
            i = i + 1;
        }
        proof {
            let s = self.points@.skip(i - 1);
            assert(s[0] == self.points@[i - 1]);
        }
        self.points[n - 1].1
    }
}

/// An input variable: a bounded domain and the measurement most recently
/// written by `set_input` (stored unclamped within the machine limit).
pub struct Input {
    pub min: i64,
    pub max: i64,
    pub value: i64,
}

/// An output variable: a bounded domain, the crisp value of the most
/// recent evaluation that touched it, and the output sets touched during
/// the current evaluation.
pub struct Output {
    pub min: i64,
    pub max: i64,
    pub value: CrispValue,
    pub cached_output_sets: Vec<OutputSetId>,
}

/// A fuzzy set over one input variable, with the degree recorded by the
/// most recent evaluation that fuzzified it.
pub struct InputSet {
    pub input: InputId,
    pub f: MembershipFunction,
    pub membership: i64,
}

/// A fuzzy set over one output variable, with the firing strength
/// aggregated by the most recent evaluation that touched it.
pub struct OutputSet {
    pub output: OutputId,
    pub f: MembershipFunction,
    pub input_membership: i64,
}

/// A rule: antecedent input sets combined with fuzzy AND, implying one
/// consequent output set.
pub struct Rule {
    pub input_sets: Vec<InputSetId>,
    pub output_set: OutputSetId,
}

/// A named, swappable bundle of rules forming one evaluation context.
pub struct RuleSet {
    pub rules: Vec<RuleId>,
}

/// The engine: flat arenas for every entity, indexed by the integer
/// handles returned at creation time.
pub struct Fuzzy {
    pub inputs: Vec<Input>,
    pub outputs: Vec<Output>,
    pub input_sets: Vec<InputSet>,
    pub output_sets: Vec<OutputSet>,
    pub rules: Vec<Rule>,
    pub rule_sets: Vec<RuleSet>,
}

impl Input {
    pub open spec fn wf(&self) -> bool {
        &&& -VALUE_LIMIT <= self.min <= self.max <= VALUE_LIMIT
        &&& -VALUE_LIMIT <= self.value <= VALUE_LIMIT
    }
}

impl Fuzzy {
    /// Every stored handle points into its arena, every membership
    /// function is well-formed, every variable domain is bounded, and
    /// every recorded degree is a degree.
    pub open spec fn wf(&self) -> bool {
        &&& forall|i: int| 0 <= i < self.inputs@.len() ==> (#[trigger] self.inputs@[i]).wf()
        &&& forall|i: int|
            0 <= i < self.outputs@.len() ==> -VALUE_LIMIT <= (#[trigger] self.outputs@[i]).min
                <= self.outputs@[i].max <= VALUE_LIMIT
        &&& forall|i: int, j: int|
            0 <= i < self.outputs@.len() && 0 <= j
                < (#[trigger] self.outputs@[i]).cached_output_sets@.len() ==> (
            #[trigger] self.outputs@[i].cached_output_sets@[j]).id < self.output_sets@.len()
        &&& forall|s: int|
            0 <= s < self.input_sets@.len() ==> (#[trigger] self.input_sets@[s]).input.id
                < self.inputs@.len() && self.input_sets@[s].f.wf() && 0
                <= self.input_sets@[s].membership <= SCALE
        &&& forall|s: int|
            0 <= s < self.output_sets@.len() ==> (#[trigger] self.output_sets@[s]).output.id
                < self.outputs@.len() && self.output_sets@[s].f.wf() && 0
                <= self.output_sets@[s].input_membership <= SCALE
        &&& forall|r: int, j: int|
            0 <= r < self.rules@.len() && 0 <= j < (#[trigger] self.rules@[r]).input_sets@.len()
                ==> (#[trigger] self.rules@[r].input_sets@[j]).id < self.input_sets@.len()
        &&& forall|r: int|
            0 <= r < self.rules@.len() ==> (#[trigger] self.rules@[r]).output_set.id
                < self.output_sets@.len()
        &&& forall|k: int, j: int|
            0 <= k < self.rule_sets@.len() && 0 <= j < (#[trigger] self.rule_sets@[k]).rules@.len()
                ==> (#[trigger] self.rule_sets@[k].rules@[j]).id < self.rules@.len()
    }

    /// An engine with empty arenas.
    pub fn new() -> (r: Self)
        ensures
            r.wf(),
            r.inputs@.len() == 0,
            r.outputs@.len() == 0,
            r.input_sets@.len() == 0,
            r.output_sets@.len() == 0,
            r.rules@.len() == 0,
            r.rule_sets@.len() == 0,
    {
        Fuzzy {
            inputs: Vec::new(),
            outputs: Vec::new(),
            input_sets: Vec::new(),
            output_sets: Vec::new(),
            rules: Vec::new(),
            rule_sets: Vec::new(),
        }
    }

    /// Registers an input variable over `[min, max]`, initially `0`.
    pub fn add_input(&mut self, min: i64, max: i64) -> (r: InputId)
        requires
            old(self).wf(),
            -VALUE_LIMIT <= min <= max <= VALUE_LIMIT,
        ensures
            final(self).wf(),
            r.id == old(self).inputs@.len(),
            final(self).inputs@ == old(self).inputs@.push((Input { min, max, value: 0 })),
            final(self).outputs@ == old(self).outputs@,
            final(self).input_sets@ == old(self).input_sets@,
            final(self).output_sets@ == old(self).output_sets@,
            final(self).rules@ == old(self).rules@,
            final(self).rule_sets@ == old(self).rule_sets@,
    {
        let id = self.inputs.len();
        self.inputs.push(Input { min, max, value: 0 });
        InputId { id }
    }

    /// Stores a fresh measurement; the raw value is kept unclamped.
    pub fn set_input(&mut self, id: InputId, value: i64)
        requires
            old(self).wf(),
            id.id < old(self).inputs@.len(),
            -VALUE_LIMIT <= value <= VALUE_LIMIT,
        ensures
            final(self).wf(),
            final(self).inputs@ == old(self).inputs@.update(
                id.id as int,
                (Input {
                    min: old(self).inputs@[id.id as int].min,
                    max: old(self).inputs@[id.id as int].max,
                    value,
                }),
            ),
            final(self).outputs@ == old(self).outputs@,
            final(self).input_sets@ == old(self).input_sets@,
            final(self).output_sets@ == old(self).output_sets@,
            final(self).rules@ == old(self).rules@,
            final(self).rule_sets@ == old(self).rule_sets@,
    {
        let min = self.inputs[id.id].min;
        let max = self.inputs[id.id].max;
        self.inputs[id.id] = Input { min, max, value };
    }

    /// Registers an output variable over `[min, max]`; its crisp value
    /// is `0` until an evaluation touches it.
    pub fn add_output(&mut self, min: i64, max: i64) -> (r: OutputId)
        requires
            old(self).wf(),
            -VALUE_LIMIT <= min <= max <= VALUE_LIMIT,
        ensures
            final(self).wf(),
            r.id == old(self).outputs@.len(),
            final(self).outputs@.len() == old(self).outputs@.len() + 1,
            forall|i: int|
                0 <= i < old(self).outputs@.len() ==> final(self).outputs@[i] == old(self).outputs@[i],
            final(self).outputs@[r.id as int].min == min,
            final(self).outputs@[r.id as int].max == max,
            final(self).outputs@[r.id as int].value == CrispValue::Finite(0),
            final(self).outputs@[r.id as int].cached_output_sets@ == Seq::<OutputSetId>::empty(),
            final(self).inputs@ == old(self).inputs@,
            final(self).input_sets@ == old(self).input_sets@,
            final(self).output_sets@ == old(self).output_sets@,
            final(self).rules@ == old(self).rules@,
            final(self).rule_sets@ == old(self).rule_sets@,
    {
        let id = self.outputs.len();
        self.outputs.push(
            Output { min, max, value: CrispValue::Finite(0), cached_output_sets: Vec::new() },
        );
        OutputId { id }
    }

    /// The crisp value left by the most recent evaluation that touched
    /// this output (`Finite(0)` before any did).
    pub fn get_output(&self, id: OutputId) -> (r: CrispValue)
        requires
            id.id < self.outputs@.len(),
        ensures
            r == self.outputs@[id.id as int].value,
    {
        self.outputs[id.id].value
    }

    /// Binds a fuzzy set with membership function `f` to an input
    /// variable for the engine's lifetime; its degree starts at `0`.
    pub fn add_input_set(&mut self, input: InputId, f: MembershipFunction) -> (r: InputSetId)
        requires
            old(self).wf(),
            input.id < old(self).inputs@.len(),
            f.wf(),
        ensures
            final(self).wf(),
            r.id == old(self).input_sets@.len(),
            final(self).input_sets@.len() == old(self).input_sets@.len() + 1,
            forall|i: int|
                0 <= i < old(self).input_sets@.len() ==> final(self).input_sets@[i] == old(
                    self,
                ).input_sets@[i],
            final(self).input_sets@[r.id as int].input == input,
            final(self).input_sets@[r.id as int].f.points@ == f.points@,
            final(self).input_sets@[r.id as int].membership == 0,
            final(self).inputs@ == old(self).inputs@,
            final(self).outputs@ == old(self).outputs@,
            final(self).output_sets@ == old(self).output_sets@,
            final(self).rules@ == old(self).rules@,
            final(self).rule_sets@ == old(self).rule_sets@,
    {
        let id = self.input_sets.len();
        self.input_sets.push(InputSet { input, f, membership: 0 });
        InputSetId { id }
    }

    /// Binds a fuzzy set with membership function `f` to an output
    /// variable; its firing strength starts at `0`.
    pub fn add_output_set(&mut self, output: OutputId, f: MembershipFunction) -> (r: OutputSetId)
        requires
            old(self).wf(),
            output.id < old(self).outputs@.len(),
            f.wf(),
        ensures
            final(self).wf(),
            r.id == old(self).output_sets@.len(),
            final(self).output_sets@.len() == old(self).output_sets@.len() + 1,
            forall|i: int|
                0 <= i < old(self).output_sets@.len() ==> final(self).output_sets@[i] == old(
                    self,
                ).output_sets@[i],
            final(self).output_sets@[r.id as int].output == output,
            final(self).output_sets@[r.id as int].f.points@ == f.points@,
            final(self).output_sets@[r.id as int].input_membership == 0,
            final(self).inputs@ == old(self).inputs@,
            final(self).outputs@ == old(self).outputs@,
            final(self).input_sets@ == old(self).input_sets@,
            final(self).rules@ == old(self).rules@,
            final(self).rule_sets@ == old(self).rule_sets@,
    {
        let id = self.output_sets.len();
        self.output_sets.push(OutputSet { output, f, input_membership: 0 });
        OutputSetId { id }
    }

    /// Registers a rule: the antecedent input sets ANDed together imply
    /// the consequent output set.
    pub fn add_rule(&mut self, input_sets: &Vec<InputSetId>, output_set: OutputSetId) -> (r:
        RuleId)
        requires
            old(self).wf(),
            forall|j: int|
                0 <= j < input_sets@.len() ==> (#[trigger] input_sets@[j]).id < old(
                    self,
                ).input_sets@.len(),
            output_set.id < old(self).output_sets@.len(),
        ensures
            final(self).wf(),
            r.id == old(self).rules@.len(),
            final(self).rules@.len() == old(self).rules@.len() + 1,
            forall|i: int| 0 <= i < old(self).rules@.len() ==> final(self).rules@[i] == old(self).rules@[i],
            final(self).rules@[r.id as int].input_sets@ == input_sets@,
            final(self).rules@[r.id as int].output_set == output_set,
            final(self).inputs@ == old(self).inputs@,
            final(self).outputs@ == old(self).outputs@,
            final(self).input_sets@ == old(self).input_sets@,
            final(self).output_sets@ == old(self).output_sets@,
            final(self).rule_sets@ == old(self).rule_sets@,
    {
        let id = self.rules.len();
        let ants = copy_id_vec(input_sets);
        self.rules.push(Rule { input_sets: ants, output_set });
        RuleId { id }
    }

    /// Registers a named rule set; the same rule may appear in several
    /// rule sets.
    pub fn add_rule_set(&mut self, rules: &Vec<RuleId>) -> (r: RuleSetId)
        requires
            old(self).wf(),
            forall|j: int|
                0 <= j < rules@.len() ==> (#[trigger] rules@[j]).id < old(self).rules@.len(),
        ensures
            final(self).wf(),
            r.id == old(self).rule_sets@.len(),
            final(self).rule_sets@.len() == old(self).rule_sets@.len() + 1,
            forall|i: int|
                0 <= i < old(self).rule_sets@.len() ==> final(self).rule_sets@[i] == old(
                    self,
                ).rule_sets@[i],
            final(self).rule_sets@[r.id as int].rules@ == rules@,
            final(self).inputs@ == old(self).inputs@,
            final(self).outputs@ == old(self).outputs@,
            final(self).input_sets@ == old(self).input_sets@,
            final(self).output_sets@ == old(self).output_sets@,
            final(self).rules@ == old(self).rules@,
    {
        let id = self.rule_sets.len();
        let list = copy_rule_id_vec(rules);
        self.rule_sets.push(RuleSet { rules: list });
        RuleSetId { id }
    }
}

fn copy_id_vec(v: &Vec<InputSetId>) -> (r: Vec<InputSetId>)
    ensures
        r@ == v@,
{
    let mut r: Vec<InputSetId> = Vec::new();
    let mut i: usize = 0;
    while i < v.len()
        invariant
            i <= v@.len(),
            r@ =~= v@.subrange(0, i as int),
        decreases v@.len() - i,
    {
        r.push(v[i]);
        i = i + 1;
    }
    proof {
        assert(r@ =~= v@);
    }
    r
}

fn copy_rule_id_vec(v: &Vec<RuleId>) -> (r: Vec<RuleId>)
    ensures
        r@ == v@,
{
    let mut r: Vec<RuleId> = Vec::new();
    let mut i: usize = 0;
    while i < v.len()
        invariant
            i <= v@.len(),
            r@ =~= v@.subrange(0, i as int),
        decreases v@.len() - i,
    {
        r.push(v[i]);
        i = i + 1;
    }
    proof {
        assert(r@ =~= v@);
    }
    r
}

} // verus!
