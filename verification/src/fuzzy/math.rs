//! The evaluator: fuzzification, rule firing, aggregation and centroid
//! defuzzification.
//!
//! `Fuzzy::evaluate` fuzzifies exactly the input sets that the chosen
//! rule set references, computes each rule's firing strength as the
//! minimum of its antecedents' degrees, folds strengths landing on a
//! shared output set with the maximum, and defuzzifies every touched
//! output with a 40-step centroid over the output's domain.  Outputs
//! untouched by the rule set keep their previous crisp value.

use vstd::prelude::*;
use vstd::math::{max, min};
use crate::fuzzy::{
    CrispValue,
    Fuzzy,
    InputSet,
    InputSetId,
    Output,
    OutputSet,
    OutputSetId,
    Rule,
    RuleId,
    RuleSet,
    RuleSetId,
    SCALE,
    VALUE_LIMIT,
    lemma_pl_eval_bounds,
    pl_eval,
};

verus! {

/// Number of uniform sample steps in the centroid integration.
pub const INTEGRAL_STEP: usize = 40;

/// The degrees currently recorded by a list of input sets.
pub open spec fn memberships(input_sets: Seq<InputSet>) -> Seq<int> {
    Seq::new(input_sets.len(), |s: int| input_sets[s].membership as int)
}

/// Rule `r` names input set `s` among its antecedents.
pub open spec fn rule_uses(r: Rule, s: int) -> bool {
    exists|j: int| 0 <= j < r.input_sets@.len() && (#[trigger] r.input_sets@[j]).id == s
}

/// Input set `s` is referenced by some rule of the list: its degree is
/// recomputed ("dirty") when the list is evaluated.
pub open spec fn spec_dirty(rules: Seq<Rule>, list: Seq<RuleId>, s: int) -> bool {
    exists|k: int| 0 <= k < list.len() && rule_uses(rules[(#[trigger] list[k]).id as int], s)
}

/// Output set `t` is the consequent of some rule of the list.
pub open spec fn spec_touched(rules: Seq<Rule>, list: Seq<RuleId>, t: int) -> bool {
    exists|k: int| 0 <= k < list.len() && rules[(#[trigger] list[k]).id as int].output_set.id == t
}

/// Fuzzy AND: the firing strength of a rule with antecedents `ants` is
/// the minimum of their degrees, starting from full membership.
pub open spec fn and_strength(ants: Seq<InputSetId>, degs: Seq<int>) -> int
    decreases ants.len(),
{
    if ants.len() == 0 {
        SCALE as int
    } else {
        min(and_strength(ants.drop_last(), degs), degs[ants.last().id as int])
    }
}

/// Fuzzy OR across co-firing rules: the strength of output set `t` is
/// the maximum firing strength of the rules of the list whose
/// consequent is `t`, starting from `0`.
pub open spec fn agg_strength(rules: Seq<Rule>, list: Seq<RuleId>, degs: Seq<int>, t: int) -> int
    decreases list.len(),
{
    if list.len() == 0 {
        0
    } else {
        let prev = agg_strength(rules, list.drop_last(), degs, t);
        let r = rules[list.last().id as int];
        if r.output_set.id == t {
            max(prev, and_strength(r.input_sets@, degs))
        } else {
            prev
        }
    }
}

/// The degrees after fuzzifying for `list`: freshly computed from the
/// input's current value where the list references the set, stale
/// otherwise.
pub open spec fn degrees_after(pre: Fuzzy, list: Seq<RuleId>) -> Seq<int> {
    Seq::new(
        pre.input_sets@.len(),
        |s: int|
            if spec_dirty(pre.rules@, list, s) {
                pl_eval(
                    pre.input_sets@[s].f.points@,
                    pre.inputs@[pre.input_sets@[s].input.id as int].value as int,
                )
            } else {
                pre.input_sets@[s].membership as int
            },
    )
}

/// Six times the integral of `x * y(x)` where `y` interpolates linearly
/// between `(x1, y1)` and `(x2, y2)`: the closed-form antiderivative,
/// scaled so that its halves and thirds stay integers.
pub open spec fn seg_moment6(x1: int, x2: int, y1: int, y2: int) -> int {
    3 * (y1 * (x2 * x2 - x1 * x1) - x1 * (x2 + x1) * (y2 - y1)) + 2 * (x2 * x2 + x2 * x1 + x1
        * x1) * (y2 - y1)
}

/// Twice the trapezoid area between `(x1, y1)` and `(x2, y2)`.
pub open spec fn seg_area2(x1: int, x2: int, y1: int, y2: int) -> int {
    (x2 - x1) * (y1 + y2)
}

/// Membership of `s` in a list of output-set handles.
pub open spec fn in_os_list(cached: Seq<OutputSetId>, t: int) -> bool {
    exists|j: int| 0 <= j < cached.len() && (#[trigger] cached[j]).id == t
}

/// Membership of `s` in a list of input-set handles.
pub open spec fn in_is_list(ids: Seq<InputSetId>, s: int) -> bool {
    exists|j: int| 0 <= j < ids.len() && (#[trigger] ids[j]).id == s
}

/// Upper envelope at `x` of the output sets in `cached`: the maximum
/// over the sets of `min(firing strength, membership at x)` (standard
/// Mamdani implication plus aggregation), starting from `0`.
pub open spec fn envelope_over(output_sets: Seq<OutputSet>, cached: Seq<OutputSetId>, x: int) -> int
    decreases cached.len(),
{
    if cached.len() == 0 {
        0
    } else {
        let s = output_sets[cached.last().id as int];
        max(
            envelope_over(output_sets, cached.drop_last(), x),
            min(s.input_membership as int, pl_eval(s.f.points@, x)),
        )
    }
}

/// The `k`-th of the `INTEGRAL_STEP + 1` uniform sample offsets over a
/// domain of width `range`, measured from the domain's lower bound.
pub open spec fn sample_u(range: int, k: int) -> int {
    (k * range) / (INTEGRAL_STEP as int)
}

/// Sum of the first `k` per-segment moments (six times their value) of
/// the envelope of `cached` over the domain `[lo, lo + range]`,
/// in coordinates relative to `lo`.
pub open spec fn defuzz_num6(
    output_sets: Seq<OutputSet>,
    cached: Seq<OutputSetId>,
    lo: int,
    range: int,
    k: int,
) -> int
    decreases k,
{
    if k <= 0 {
        0
    } else {
        let u1 = sample_u(range, k - 1);
        let u2 = sample_u(range, k);
        let y1 = envelope_over(output_sets, cached, lo + u1);
        let y2 = envelope_over(output_sets, cached, lo + u2);
        defuzz_num6(output_sets, cached, lo, range, k - 1) + seg_moment6(u1, u2, y1, y2)
    }
}

/// Sum of the first `k` per-segment trapezoid areas (twice their value)
/// of the envelope of `cached` over the domain `[lo, lo + range]`.
pub open spec fn defuzz_den2(
    output_sets: Seq<OutputSet>,
    cached: Seq<OutputSetId>,
    lo: int,
    range: int,
    k: int,
) -> int
    decreases k,
{
    if k <= 0 {
        0
    } else {
        let u1 = sample_u(range, k - 1);
        let u2 = sample_u(range, k);
        let y1 = envelope_over(output_sets, cached, lo + u1);
        let y2 = envelope_over(output_sets, cached, lo + u2);
        defuzz_den2(output_sets, cached, lo, range, k - 1) + seg_area2(u1, u2, y1, y2)
    }
}

/// Centroid of the envelope of `cached` over `[lo, hi]`, from
/// `INTEGRAL_STEP` uniform samples.  The moment is taken in coordinates
/// relative to `lo` (in exact arithmetic the centroid is the same) and
/// the one division rounds towards minus infinity.  `NonFinite` when
/// the envelope carries no area.
pub open spec fn spec_defuzz(
    output_sets: Seq<OutputSet>,
    cached: Seq<OutputSetId>,
    lo: int,
    hi: int,
) -> CrispValue {
    let n = defuzz_num6(output_sets, cached, lo, hi - lo, INTEGRAL_STEP as int);
    let d = defuzz_den2(output_sets, cached, lo, hi - lo, INTEGRAL_STEP as int);
    if d == 0 {
        CrispValue::NonFinite
    } else {
        CrispValue::Finite((lo + n / (3 * d)) as i64)
    }
}

/// A firing strength is a degree whenever all recorded degrees are.
pub proof fn lemma_and_strength_bounds(ants: Seq<InputSetId>, degs: Seq<int>)
    requires
        forall|i: int| 0 <= i < degs.len() ==> 0 <= #[trigger] degs[i] <= SCALE,
        forall|j: int| 0 <= j < ants.len() ==> (#[trigger] ants[j]).id < degs.len(),
    ensures
        0 <= and_strength(ants, degs) <= SCALE,
    decreases ants.len(),
{
    if ants.len() > 0 {
        lemma_and_strength_bounds(ants.drop_last(), degs);
    }
}

/// An aggregated strength is a degree whenever all recorded degrees are.
pub proof fn lemma_agg_strength_bounds(rules: Seq<Rule>, list: Seq<RuleId>, degs: Seq<int>, t: int)
    requires
        forall|i: int| 0 <= i < degs.len() ==> 0 <= #[trigger] degs[i] <= SCALE,
        forall|k: int| 0 <= k < list.len() ==> (#[trigger] list[k]).id < rules.len(),
        forall|r: int, j: int|
            0 <= r < rules.len() && 0 <= j < (#[trigger] rules[r]).input_sets@.len() ==> (
            #[trigger] rules[r].input_sets@[j]).id < degs.len(),
    ensures
        0 <= agg_strength(rules, list, degs, t) <= SCALE,
    decreases list.len(),
{
    if list.len() > 0 {
        lemma_agg_strength_bounds(rules, list.drop_last(), degs, t);
        lemma_and_strength_bounds(rules[list.last().id as int].input_sets@, degs);
    }
}

/// The antiderivative form of the moment and its compact factorisation
/// agree: both are six times `∫ x·y(x) dx` for the linear interpolant.
pub proof fn lemma_moment6_compact(x1: int, x2: int, y1: int, y2: int)
    ensures
        seg_moment6(x1, x2, y1, y2) == (x2 - x1) * (x1 * (2 * y1 + y2) + x2 * (y1 + 2 * y2)),
{
    // Expand the three pieces of the antiderivative form.
    assert(y1 * (x2 * x2 - x1 * x1) == x2 * x2 * y1 - x1 * x1 * y1) by (nonlinear_arith);
    assert(x1 * (x2 + x1) * (y2 - y1) == x1 * x2 * y2 - x1 * x2 * y1 + x1 * x1 * y2 - x1 * x1 * y1)
        by (nonlinear_arith);
    assert(2 * (x2 * x2 + x2 * x1 + x1 * x1) * (y2 - y1) == 2 * (x2 * x2 * y2) - 2 * (x2 * x2 * y1)
        + 2 * (x1 * x2 * y2) - 2 * (x1 * x2 * y1) + 2 * (x1 * x1 * y2) - 2 * (x1 * x1 * y1))
        by (nonlinear_arith);
    // Expand the compact form.
    assert((x2 - x1) * (x1 * (2 * y1 + y2) + x2 * (y1 + 2 * y2)) == x2 * (x1 * (2 * y1 + y2)) + x2
        * (x2 * (y1 + 2 * y2)) - x1 * (x1 * (2 * y1 + y2)) - x1 * (x2 * (y1 + 2 * y2)))
        by (nonlinear_arith);
    assert(x2 * (x1 * (2 * y1 + y2)) == 2 * (x1 * x2 * y1) + x1 * x2 * y2) by (nonlinear_arith);
    assert(x2 * (x2 * (y1 + 2 * y2)) == x2 * x2 * y1 + 2 * (x2 * x2 * y2)) by (nonlinear_arith);
    assert(x1 * (x1 * (2 * y1 + y2)) == 2 * (x1 * x1 * y1) + x1 * x1 * y2) by (nonlinear_arith);
    assert(x1 * (x2 * (y1 + 2 * y2)) == x1 * x2 * y1 + 2 * (x1 * x2 * y2)) by (nonlinear_arith);
}

/// Exact integer form of the closed-form antiderivative: computes six
/// times `∫ x·y(x) dx` over `[x1, x2]` for the linear interpolant.
pub fn integral(x1: i64, x2: i64, y1: i64, y2: i64) -> (r: i128)
    requires
        -2 * VALUE_LIMIT <= x1 <= x2 <= 2 * VALUE_LIMIT,
        -16 * SCALE <= y1 <= 16 * SCALE,
        -16 * SCALE <= y2 <= 16 * SCALE,
    ensures
        r == seg_moment6(x1 as int, x2 as int, y1 as int, y2 as int),
{
    let xx1 = x1 as i128;
    let xx2 = x2 as i128;
    let yy1 = y1 as i128;
    let yy2 = y2 as i128;
    proof {
        assert((2 * yy1 + yy2) <= 48_000_000 && (2 * yy1 + yy2) >= -48_000_000);
        assert(xx1 * (2 * yy1 + yy2) <= 100_000_000_000_000_000_000 && xx1 * (2 * yy1 + yy2)
            >= -100_000_000_000_000_000_000) by (nonlinear_arith)
            requires
                -2_000_000_000_000 <= xx1 <= 2_000_000_000_000,
                -48_000_000 <= 2 * yy1 + yy2 <= 48_000_000,
        ;
        assert(xx2 * (yy1 + 2 * yy2) <= 100_000_000_000_000_000_000 && xx2 * (yy1 + 2 * yy2)
            >= -100_000_000_000_000_000_000) by (nonlinear_arith)
            requires
                -2_000_000_000_000 <= xx2 <= 2_000_000_000_000,
                -48_000_000 <= yy1 + 2 * yy2 <= 48_000_000,
        ;
    }
    let a = xx1 * (2 * yy1 + yy2);
    let b = xx2 * (yy1 + 2 * yy2);
    proof {
        assert((xx2 - xx1) * (a + b) <= 1_000_000_000_000_000_000_000_000_000_000_000 && (xx2 - xx1)
            * (a + b) >= -1_000_000_000_000_000_000_000_000_000_000_000) by (nonlinear_arith)
            requires
                0 <= xx2 - xx1 <= 4_000_000_000_000,
                -200_000_000_000_000_000_000 <= a + b <= 200_000_000_000_000_000_000,
        ;
    }
    let m = (xx2 - xx1) * (a + b);
    proof {
        lemma_moment6_compact(x1 as int, x2 as int, y1 as int, y2 as int);
    }
    m
}

/// The firing strength of one rule: fuzzy AND over the degrees its
/// antecedent input sets currently record.
pub fn compute_input_membership(rules: &Vec<Rule>, input_sets: &Vec<InputSet>, rule: RuleId) -> (r:
    i64)
    requires
        rule.id < rules@.len(),
        forall|j: int|
            0 <= j < rules@[rule.id as int].input_sets@.len() ==> (#[trigger] rules@[rule.id as int].input_sets@[j]).id
                < input_sets@.len(),
        forall|s: int|
            0 <= s < input_sets@.len() ==> 0 <= (#[trigger] input_sets@[s]).membership <= SCALE,
    ensures
        r == and_strength(rules@[rule.id as int].input_sets@, memberships(input_sets@)),
        0 <= r <= SCALE,
{
    let ghost ants = rules@[rule.id as int].input_sets@;
    let ghost degs = memberships(input_sets@);
    let mut result: i64 = SCALE;
    let n = rules[rule.id].input_sets.len();
    proof {
        assert(ants.take(0) =~= Seq::<InputSetId>::empty());
    }
    let mut j: usize = 0;
    while j < n
        invariant
            j <= n,
            n == ants.len(),
            rule.id < rules@.len(),
            ants == rules@[rule.id as int].input_sets@,
            degs == memberships(input_sets@),
            forall|i: int| 0 <= i < ants.len() ==> (#[trigger] ants[i]).id < input_sets@.len(),
            forall|s: int|
                0 <= s < input_sets@.len() ==> 0 <= (#[trigger] input_sets@[s]).membership <= SCALE,
            result == and_strength(ants.take(j as int), degs),
            0 <= result <= SCALE,
        decreases n - j,
    {
        let s = rules[rule.id].input_sets[j];
        let m = input_sets[s.id].membership;
        proof {
            assert(ants.take(j + 1).drop_last() =~= ants.take(j as int));
            assert(ants.take(j + 1).last() == ants[j as int]);
        }
        if m < result {
            result = m;
        }
        j = j + 1;
    }
    proof {
        assert(ants.take(n as int) =~= ants);
    }
    result
}

/// The sample offsets start at `0`, never decrease, and never leave the
/// domain.
proof fn lemma_sample_props(range: int, k: int)
    requires
        0 <= range,
        0 <= k,
    ensures
        sample_u(range, 0) == 0,
        0 <= sample_u(range, k) <= sample_u(range, k + 1),
        k + 1 <= INTEGRAL_STEP ==> sample_u(range, k + 1) <= range,
{
    vstd::arithmetic::div_mod::lemma_div_of0(INTEGRAL_STEP as int);
    assert(0 <= k * range <= (k + 1) * range) by (nonlinear_arith)
        requires
            0 <= range,
            0 <= k,
    ;
    vstd::arithmetic::div_mod::lemma_div_pos_is_pos(k * range, INTEGRAL_STEP as int);
    vstd::arithmetic::div_mod::lemma_div_is_ordered(
        k * range,
        (k + 1) * range,
        INTEGRAL_STEP as int,
    );
    if k + 1 <= INTEGRAL_STEP {
        assert((k + 1) * range <= range * (INTEGRAL_STEP as int)) by (nonlinear_arith)
            requires
                0 <= range,
                0 <= k,
                k + 1 <= INTEGRAL_STEP as int,
        ;
        vstd::arithmetic::div_mod::lemma_div_is_ordered(
            (k + 1) * range,
            range * (INTEGRAL_STEP as int),
            INTEGRAL_STEP as int,
        );
        vstd::arithmetic::div_mod::lemma_div_by_multiple(range, INTEGRAL_STEP as int);
    }
}

/// Bounds for one segment of the centroid sums: the doubled trapezoid
/// area is a bounded nonnegative number, and the six-fold moment lies
/// between `0` and `3 * range` times the area.
proof fn lemma_seg_bounds(u1: int, u2: int, y1: int, y2: int, range: int)
    requires
        0 <= u1 <= u2 <= range <= 2 * VALUE_LIMIT,
        0 <= y1 <= SCALE,
        0 <= y2 <= SCALE,
    ensures
        0 <= seg_area2(u1, u2, y1, y2) <= 4_000_000_000_000_000_000,
        0 <= seg_moment6(u1, u2, y1, y2),
        seg_moment6(u1, u2, y1, y2) <= 3 * (range * seg_area2(u1, u2, y1, y2)),
        seg_moment6(u1, u2, y1, y2) <= 24_000_000_000_000_000_000_000_000_000_000,
{
    lemma_moment6_compact(u1, u2, y1, y2);
    assert(0 <= (u2 - u1) * (y1 + y2) <= 4_000_000_000_000_000_000) by (nonlinear_arith)
        requires
            0 <= u2 - u1 <= 2_000_000_000_000,
            0 <= y1 + y2 <= 2_000_000,
    ;
    assert((u2 - u1) * (u1 * (2 * y1 + y2) + u2 * (y1 + 2 * y2)) >= 0) by (nonlinear_arith)
        requires
            0 <= u1 <= u2,
            0 <= y1,
            0 <= y2,
    ;
    assert((u2 - u1) * (u1 * (2 * y1 + y2) + u2 * (y1 + 2 * y2)) <= 3 * (range * ((u2 - u1) * (y1
        + y2)))) by (nonlinear_arith)
        requires
            0 <= u1 <= range,
            0 <= u2 <= range,
            u1 <= u2,
            0 <= y1,
            0 <= y2,
    ;
    assert(3 * (range * ((u2 - u1) * (y1 + y2))) <= 24_000_000_000_000_000_000_000_000_000_000)
        by (nonlinear_arith)
        requires
            0 <= range <= 2_000_000_000_000,
            0 <= (u2 - u1) * (y1 + y2) <= 4_000_000_000_000_000_000,
    ;
}

/// The aggregated output envelope at `x`: `max` over the output sets
/// the output caches of `min(firing strength, membership at x)`.
pub fn output_fuzzy_function(output_sets: &Vec<OutputSet>, output: &Output, x: i64) -> (r: i64)
    requires
        forall|j: int|
            0 <= j < output.cached_output_sets@.len() ==> (
            #[trigger] output.cached_output_sets@[j]).id < output_sets@.len(),
        forall|t: int|
            0 <= t < output_sets@.len() ==> (#[trigger] output_sets@[t]).f.wf() && 0
                <= output_sets@[t].input_membership <= SCALE,
        -VALUE_LIMIT <= x <= VALUE_LIMIT,
    ensures
        r == envelope_over(output_sets@, output.cached_output_sets@, x as int),
        0 <= r <= SCALE,
{
    let ghost cached = output.cached_output_sets@;
    let mut m: i64 = 0;
    let n = output.cached_output_sets.len();
    proof {
        assert(cached.take(0) =~= Seq::<OutputSetId>::empty());
    }
    let mut j: usize = 0;
    while j < n
        invariant
            j <= n,
            n == cached.len(),
            cached == output.cached_output_sets@,
            forall|i: int| 0 <= i < cached.len() ==> (#[trigger] cached[i]).id < output_sets@.len(),
            forall|t: int|
                0 <= t < output_sets@.len() ==> (#[trigger] output_sets@[t]).f.wf() && 0
                    <= output_sets@[t].input_membership <= SCALE,
            -VALUE_LIMIT <= x <= VALUE_LIMIT,
            m == envelope_over(output_sets@, cached.take(j as int), x as int),
            0 <= m <= SCALE,
        decreases n - j,
    {
        let t = output.cached_output_sets[j];
        let strength = output_sets[t.id].input_membership;
        let y = output_sets[t.id].f.eval(x);
        let clipped = if strength < y {
            strength
        } else {
            y
        };
        proof {
            assert(cached.take(j + 1).drop_last() =~= cached.take(j as int));
            assert(cached.take(j + 1).last() == cached[j as int]);
        }
        if clipped > m {
            m = clipped;
        }
        j = j + 1;
    }
    proof {
        assert(cached.take(n as int) =~= cached);
    }
    m
}

/// Centroid defuzzification of one output from `INTEGRAL_STEP` uniform
/// samples of its envelope: the quotient of the moment and area sums,
/// or `NonFinite` when the envelope carries no area.
pub fn defuzzificate(output_sets: &Vec<OutputSet>, output: &Output) -> (r: CrispValue)
    requires
        forall|j: int|
            0 <= j < output.cached_output_sets@.len() ==> (
            #[trigger] output.cached_output_sets@[j]).id < output_sets@.len(),
        forall|t: int|
            0 <= t < output_sets@.len() ==> (#[trigger] output_sets@[t]).f.wf() && 0
                <= output_sets@[t].input_membership <= SCALE,
        -VALUE_LIMIT <= output.min <= output.max <= VALUE_LIMIT,
    ensures
        r == spec_defuzz(
            output_sets@,
            output.cached_output_sets@,
            output.min as int,
            output.max as int,
        ),
{
    let ghost oss = output_sets@;
    let ghost cached = output.cached_output_sets@;
    let ghost lo = output.min as int;
    let range = output.max - output.min;
    let mut u1: i64 = 0;
    let mut y1 = output_fuzzy_function(output_sets, output, output.min);
    let mut num6: u128 = 0;
    let mut den2: u128 = 0;
    proof {
        lemma_sample_props(range as int, 0);
    }
    let mut k: usize = 0;
    while k < INTEGRAL_STEP
        invariant
            k <= INTEGRAL_STEP,
            range == output.max - output.min,
            0 <= range <= 2 * VALUE_LIMIT,
            -VALUE_LIMIT <= output.min <= output.max <= VALUE_LIMIT,
            oss == output_sets@,
            cached == output.cached_output_sets@,
            lo == output.min as int,
            forall|j: int| 0 <= j < cached.len() ==> (#[trigger] cached[j]).id < oss.len(),
            forall|t: int|
                0 <= t < oss.len() ==> (#[trigger] oss[t]).f.wf() && 0 <= oss[t].input_membership
                    <= SCALE,
            u1 == sample_u(range as int, k as int),
            0 <= u1 <= range,
            y1 == envelope_over(oss, cached, lo + u1),
            0 <= y1 <= SCALE,
            num6 == defuzz_num6(oss, cached, lo, range as int, k as int),
            den2 == defuzz_den2(oss, cached, lo, range as int, k as int),
            den2 <= (k as int) * 4_000_000_000_000_000_000,
            num6 <= 3 * ((range as int) * (den2 as int)),
        decreases INTEGRAL_STEP - k,
    {
        let k1 = k + 1;
        proof {
            lemma_sample_props(range as int, k as int);
            assert((k1 as int) * (range as int) <= 40 * 2_000_000_000_000) by (nonlinear_arith)
                requires
                    0 <= k1 as int <= 40,
                    0 <= range as int <= 2_000_000_000_000,
            ;
        }
        let u2u: u64 = ((k1 as u64) * (range as u64)) / (INTEGRAL_STEP as u64);
        let u2 = u2u as i64;
        let x2 = output.min + u2;
        let y2 = output_fuzzy_function(output_sets, output, x2);
        let seg6 = integral(u1, u2, y1, y2);
        let d = u2 - u1;
        proof {
            lemma_seg_bounds(u1 as int, u2 as int, y1 as int, y2 as int, range as int);
            assert((d as int) * ((y1 + y2) as int) == seg_area2(
                u1 as int,
                u2 as int,
                y1 as int,
                y2 as int,
            ));
            // the new sums still satisfy the centroid bound
            assert(3 * ((range as int) * ((den2 as int) + seg_area2(
                u1 as int,
                u2 as int,
                y1 as int,
                y2 as int,
            ))) == 3 * ((range as int) * (den2 as int)) + 3 * ((range as int) * seg_area2(
                u1 as int,
                u2 as int,
                y1 as int,
                y2 as int,
            ))) by (nonlinear_arith);
            assert((k1 as int) * 4_000_000_000_000_000_000 == (k as int) * 4_000_000_000_000_000_000
                + 4_000_000_000_000_000_000);
            // magnitude bounds: the sums stay far below the 128-bit limit
            assert((k as int) * 4_000_000_000_000_000_000 <= 160_000_000_000_000_000_000);
            assert(3 * ((range as int) * (den2 as int)) <= 960_000_000_000_000_000_000_000_000_000_000)
                by (nonlinear_arith)
                requires
                    0 <= range as int <= 2_000_000_000_000,
                    0 <= den2 as int <= 160_000_000_000_000_000_000,
            ;
        }
        num6 = num6 + (seg6 as u128);
        den2 = den2 + (d as u128) * ((y1 + y2) as u128);
        u1 = u2;
        y1 = y2;
        k = k1;
    }
    if den2 == 0 {
        CrispValue::NonFinite
    } else {
        proof {
            assert(3 * ((range as int) * (den2 as int)) == (range as int) * (3 * (den2 as int)))
                by (nonlinear_arith);
            vstd::arithmetic::div_mod::lemma_div_is_ordered(
                num6 as int,
                (range as int) * (3 * (den2 as int)),
                3 * (den2 as int),
            );
            vstd::arithmetic::div_mod::lemma_div_by_multiple(range as int, 3 * (den2 as int));
            vstd::arithmetic::div_mod::lemma_div_pos_is_pos(num6 as int, 3 * (den2 as int));
        }
        let q = num6 / (3 * den2);
        CrispValue::Finite(output.min + (q as i64))
    }
}

fn contains_input_set(ids: &Vec<InputSetId>, s: usize) -> (b: bool)
    ensures
        b <==> in_is_list(ids@, s as int),
{
    let mut j: usize = 0;
    while j < ids.len()
        invariant
            j <= ids@.len(),
            forall|i: int| 0 <= i < j ==> (#[trigger] ids@[i]).id != s,
        decreases ids@.len() - j,
    {
        if ids[j].id == s {
            return true;
        }
        j = j + 1;
    }
    false
}

proof fn lemma_in_is_list_push(ids: Seq<InputSetId>, x: InputSetId, s: int)
    requires
        in_is_list(ids, s),
    ensures
        in_is_list(ids.push(x), s),
{
    let i = choose|i: int| 0 <= i < ids.len() && (#[trigger] ids[i]).id == s;
    assert(ids.push(x)[i] == ids[i]);
}

proof fn lemma_touched_take_succ(rules: Seq<Rule>, list: Seq<RuleId>, n: int)
    requires
        0 <= n < list.len(),
    ensures
        forall|t: int|
            #[trigger] spec_touched(rules, list.take(n + 1), t) <==> (spec_touched(
                rules,
                list.take(n),
                t,
            ) || rules[list[n].id as int].output_set.id == t),
{
    assert forall|t: int|
        #[trigger] spec_touched(rules, list.take(n + 1), t) <==> (spec_touched(
            rules,
            list.take(n),
            t,
        ) || rules[list[n].id as int].output_set.id == t) by {
        if spec_touched(rules, list.take(n + 1), t) {
            let k = choose|k: int|
                0 <= k < list.take(n + 1).len() && rules[(#[trigger] list.take(n + 1)[k]).id as int].output_set.id
                    == t;
            assert(list.take(n + 1)[k] == list[k]);
            if k < n {
                assert(list.take(n)[k] == list[k]);
                assert(spec_touched(rules, list.take(n), t));
            }
        }
        if spec_touched(rules, list.take(n), t) {
            let k = choose|k: int|
                0 <= k < list.take(n).len() && rules[(#[trigger] list.take(n)[k]).id as int].output_set.id
                    == t;
            assert(list.take(n + 1)[k] == list[k] && list.take(n)[k] == list[k]);
            assert(spec_touched(rules, list.take(n + 1), t));
        }
        if rules[list[n].id as int].output_set.id == t {
            assert(list.take(n + 1)[n] == list[n]);
            assert(spec_touched(rules, list.take(n + 1), t));
        }
    }
}

/// The deduplicated list of input sets referenced by any rule of the
/// rule set, so each shared membership function is evaluated at most
/// once per call.
pub fn collect_dirty_input_sets(rule_sets: &Vec<RuleSet>, rules: &Vec<Rule>, rule_set: RuleSetId)
    -> (dirty: Vec<InputSetId>)
    requires
        rule_set.id < rule_sets@.len(),
        forall|k: int|
            0 <= k < rule_sets@[rule_set.id as int].rules@.len() ==> (
            #[trigger] rule_sets@[rule_set.id as int].rules@[k]).id < rules@.len(),
    ensures
        forall|a: int, b: int|
            0 <= a < b < dirty@.len() ==> (#[trigger] dirty@[a]).id != (#[trigger] dirty@[b]).id,
        forall|j: int|
            0 <= j < dirty@.len() ==> spec_dirty(
                rules@,
                rule_sets@[rule_set.id as int].rules@,
                (#[trigger] dirty@[j]).id as int,
            ),
        forall|s: int|
            spec_dirty(rules@, rule_sets@[rule_set.id as int].rules@, s) ==> in_is_list(dirty@, s),
{
    let ghost list = rule_sets@[rule_set.id as int].rules@;
    let mut dirty: Vec<InputSetId> = Vec::new();
    let m = rule_sets[rule_set.id].rules.len();
    let mut k: usize = 0;
    while k < m
        invariant
            k <= m,
            m == list.len(),
            rule_set.id < rule_sets@.len(),
            list == rule_sets@[rule_set.id as int].rules@,
            forall|i: int| 0 <= i < list.len() ==> (#[trigger] list[i]).id < rules@.len(),
            forall|a: int, b: int|
                0 <= a < b < dirty@.len() ==> (#[trigger] dirty@[a]).id != (
                #[trigger] dirty@[b]).id,
            forall|i: int|
                0 <= i < dirty@.len() ==> spec_dirty(rules@, list, (#[trigger] dirty@[i]).id as int),
            forall|k2: int, j2: int|
                0 <= k2 < k && 0 <= j2 < rules@[list[k2].id as int].input_sets@.len()
                    ==> in_is_list(
                    dirty@,
                    (#[trigger] rules@[list[k2].id as int].input_sets@[j2]).id as int,
                ),
        decreases m - k,
    {
        let rid = rule_sets[rule_set.id].rules[k];
        let ants = rules[rid.id].input_sets.len();
        let mut j: usize = 0;
        while j < ants
            invariant
                j <= ants,
                k < m,
                m == list.len(),
                rule_set.id < rule_sets@.len(),
                rid == list[k as int],
                rid.id < rules@.len(),
                ants == rules@[rid.id as int].input_sets@.len(),
                list == rule_sets@[rule_set.id as int].rules@,
                forall|i: int| 0 <= i < list.len() ==> (#[trigger] list[i]).id < rules@.len(),
                forall|a: int, b: int|
                    0 <= a < b < dirty@.len() ==> (#[trigger] dirty@[a]).id != (
                    #[trigger] dirty@[b]).id,
                forall|i: int|
                    0 <= i < dirty@.len() ==> spec_dirty(
                        rules@,
                        list,
                        (#[trigger] dirty@[i]).id as int,
                    ),
                forall|k2: int, j2: int|
                    0 <= k2 < k && 0 <= j2 < rules@[list[k2].id as int].input_sets@.len()
                        ==> in_is_list(
                        dirty@,
                        (#[trigger] rules@[list[k2].id as int].input_sets@[j2]).id as int,
                    ),
                forall|j2: int|
                    0 <= j2 < j ==> in_is_list(
                        dirty@,
                        (#[trigger] rules@[rid.id as int].input_sets@[j2]).id as int,
                    ),
            decreases ants - j,
        {
            let sid = rules[rid.id].input_sets[j];
            let ghost dirty_before = dirty@;
            if !contains_input_set(&dirty, sid.id) {
                dirty.push(sid);
                proof {
                    assert(dirty@[dirty@.len() - 1] == sid);
                    assert(in_is_list(dirty@, sid.id as int));
                    assert(rules@[rid.id as int].input_sets@[j as int].id == sid.id as int);
                    assert(rule_uses(rules@[rid.id as int], sid.id as int));
                    assert forall|i: int|
                        0 <= i < dirty@.len() implies spec_dirty(
                        rules@,
                        list,
                        (#[trigger] dirty@[i]).id as int,
                    ) by {
                        if i < dirty_before.len() {
                            assert(dirty@[i] == dirty_before[i]);
                        } else {
                            assert(dirty@[i] == sid);
                            assert(spec_dirty(rules@, list, sid.id as int));
                        }
                    }
                    assert forall|k2: int, j2: int|
                        0 <= k2 < k && 0 <= j2 < rules@[list[k2].id as int].input_sets@.len()
                            implies in_is_list(
                        dirty@,
                        (#[trigger] rules@[list[k2].id as int].input_sets@[j2]).id as int,
                    ) by {
                        lemma_in_is_list_push(
                            dirty_before,
                            sid,
                            rules@[list[k2].id as int].input_sets@[j2].id as int,
                        );
                    }
                    assert forall|j2: int| 0 <= j2 < j implies in_is_list(
                        dirty@,
                        (#[trigger] rules@[rid.id as int].input_sets@[j2]).id as int,
                    ) by {
                        lemma_in_is_list_push(
                            dirty_before,
                            sid,
                            rules@[rid.id as int].input_sets@[j2].id as int,
                        );
                    }
                }
            } else {
                proof {
                    assert(rules@[rid.id as int].input_sets@[j as int].id == sid.id as int);
                }
            }
            j = j + 1;
        }
        k = k + 1;
    }
    proof {
        assert forall|s: int| spec_dirty(rules@, list, s) implies in_is_list(dirty@, s) by {
            let k2 = choose|k2: int|
                0 <= k2 < list.len() && rule_uses(rules@[(#[trigger] list[k2]).id as int], s);
            let j2 = choose|j2: int|
                0 <= j2 < rules@[list[k2].id as int].input_sets@.len() && (
                #[trigger] rules@[list[k2].id as int].input_sets@[j2]).id == s;
            assert(in_is_list(dirty@, rules@[list[k2].id as int].input_sets@[j2].id as int));
        }
    }
    dirty
}

proof fn lemma_in_is_list_take_succ(ids: Seq<InputSetId>, n: int)
    requires
        0 <= n < ids.len(),
    ensures
        forall|s: int|
            #[trigger] in_is_list(ids.take(n + 1), s) <==> (in_is_list(ids.take(n), s) || ids[n].id
                == s),
{
    assert forall|s: int|
        #[trigger] in_is_list(ids.take(n + 1), s) <==> (in_is_list(ids.take(n), s) || ids[n].id
            == s) by {
        if in_is_list(ids.take(n + 1), s) {
            let j = choose|j: int| 0 <= j < n + 1 && (#[trigger] ids.take(n + 1)[j]).id == s;
            assert(ids.take(n + 1)[j] == ids[j]);
            if j < n {
                assert(ids.take(n)[j] == ids[j]);
                assert(in_is_list(ids.take(n), s));
            }
        }
        if in_is_list(ids.take(n), s) {
            let j = choose|j: int| 0 <= j < n && (#[trigger] ids.take(n)[j]).id == s;
            assert(ids.take(n + 1)[j] == ids[j] && ids.take(n)[j] == ids[j]);
            assert(in_is_list(ids.take(n + 1), s));
        }
        if ids[n].id == s {
            assert(ids.take(n + 1)[n] == ids[n]);
            assert(in_is_list(ids.take(n + 1), s));
        }
    }
}

impl Fuzzy {
    /// Fuzzification: recompute the degree of every input set in
    /// `dirty` from its input's current value; all other state is left
    /// alone.
    fn fuzzify_sets(&mut self, dirty: &Vec<InputSetId>)
        requires
            old(self).wf(),
            forall|j: int|
                0 <= j < dirty@.len() ==> (#[trigger] dirty@[j]).id < old(self).input_sets@.len(),
        ensures
            final(self).wf(),
            final(self).inputs@ == old(self).inputs@,
            final(self).outputs@ == old(self).outputs@,
            final(self).output_sets@ == old(self).output_sets@,
            final(self).rules@ == old(self).rules@,
            final(self).rule_sets@ == old(self).rule_sets@,
            final(self).input_sets@.len() == old(self).input_sets@.len(),
            forall|s: int|
                0 <= s < old(self).input_sets@.len() ==> (#[trigger] final(self).input_sets@[s]).input
                    == old(self).input_sets@[s].input && final(self).input_sets@[s].f == old(
                    self,
                ).input_sets@[s].f,
            forall|s: int|
                0 <= s < old(self).input_sets@.len() ==> (#[trigger] final(self).input_sets@[s]).membership
                    as int == (if in_is_list(dirty@, s) {
                    pl_eval(
                        old(self).input_sets@[s].f.points@,
                        old(self).inputs@[old(self).input_sets@[s].input.id as int].value as int,
                    )
                } else {
                    old(self).input_sets@[s].membership as int
                }),
    {
        let n = dirty.len();
        let mut di: usize = 0;
        proof {
            assert(dirty@.take(0) =~= Seq::<InputSetId>::empty());
        }
        while di < n
            invariant
                di <= n,
                n == dirty@.len(),
                self.wf(),
                forall|j: int|
                    0 <= j < dirty@.len() ==> (#[trigger] dirty@[j]).id < old(
                        self,
                    ).input_sets@.len(),
                self.inputs@ == old(self).inputs@,
                self.outputs@ == old(self).outputs@,
                self.output_sets@ == old(self).output_sets@,
                self.rules@ == old(self).rules@,
                self.rule_sets@ == old(self).rule_sets@,
                self.input_sets@.len() == old(self).input_sets@.len(),
                forall|s: int|
                    0 <= s < old(self).input_sets@.len() ==> (#[trigger] self.input_sets@[s]).input
                        == old(self).input_sets@[s].input && self.input_sets@[s].f == old(
                        self,
                    ).input_sets@[s].f,
                forall|s: int|
                    0 <= s < old(self).input_sets@.len() ==> (
                    #[trigger] self.input_sets@[s]).membership as int == (if in_is_list(
                        dirty@.take(di as int),
                        s,
                    ) {
                        pl_eval(
                            old(self).input_sets@[s].f.points@,
                            old(self).inputs@[old(self).input_sets@[s].input.id as int].value
                                as int,
                        )
                    } else {
                        old(self).input_sets@[s].membership as int
                    }),
            decreases n - di,
        {
            let sid = dirty[di];
            let idx = self.input_sets[sid.id].input.id;
            let value = self.inputs[idx].value;
            let y = self.input_sets[sid.id].f.eval(value);
            let entry = &mut self.input_sets[sid.id];
            entry.membership = y;
            proof {
                lemma_in_is_list_take_succ(dirty@, di as int);
            }
            di = di + 1;
        }
        proof {
            assert(dirty@.take(n as int) =~= dirty@);
        }
    }
}

impl Fuzzy {
    /// Clears the firing strength of every output set that the rule
    /// set touches (the fuzzy OR accumulator starts at `0` on first
    /// touch) and returns one flag per output set saying whether it is
    /// touched.
    fn reset_touched(&mut self, rule_set: RuleSetId) -> (flags: Vec<bool>)
        requires
            old(self).wf(),
            rule_set.id < old(self).rule_sets@.len(),
        ensures
            final(self).wf(),
            final(self).inputs@ == old(self).inputs@,
            final(self).outputs@ == old(self).outputs@,
            final(self).input_sets@ == old(self).input_sets@,
            final(self).rules@ == old(self).rules@,
            final(self).rule_sets@ == old(self).rule_sets@,
            final(self).output_sets@.len() == old(self).output_sets@.len(),
            flags@.len() == old(self).output_sets@.len(),
            forall|t: int|
                0 <= t < old(self).output_sets@.len() ==> (#[trigger] flags@[t]) == spec_touched(
                    old(self).rules@,
                    old(self).rule_sets@[rule_set.id as int].rules@,
                    t,
                ),
            forall|t: int|
                0 <= t < old(self).output_sets@.len() ==> (#[trigger] final(self).output_sets@[t]).output
                    == old(self).output_sets@[t].output && final(self).output_sets@[t].f
                    == old(self).output_sets@[t].f
                    && final(self).output_sets@[t].input_membership as int == (if spec_touched(
                    old(self).rules@,
                    old(self).rule_sets@[rule_set.id as int].rules@,
                    t,
                ) {
                    0
                } else {
                    old(self).output_sets@[t].input_membership as int
                }),
    {
        let ghost list = self.rule_sets@[rule_set.id as int].rules@;
        let n = self.output_sets.len();
        let mut flags: Vec<bool> = Vec::new();
        while flags.len() < n
            invariant
                flags@.len() <= n,
                forall|t: int| 0 <= t < flags@.len() ==> !(#[trigger] flags@[t]),
            decreases n - flags@.len(),
        {
            flags.push(false);
        }
        let m = self.rule_sets[rule_set.id].rules.len();
        let mut k: usize = 0;
        proof {
            assert(list.take(0) =~= Seq::<RuleId>::empty());
        }
        while k < m
            invariant
                k <= m,
                m == list.len(),
                self.wf(),
                rule_set.id < self.rule_sets@.len(),
                list == self.rule_sets@[rule_set.id as int].rules@,
                self.inputs@ == old(self).inputs@,
                self.outputs@ == old(self).outputs@,
                self.input_sets@ == old(self).input_sets@,
                self.rules@ == old(self).rules@,
                self.rule_sets@ == old(self).rule_sets@,
                self.output_sets@.len() == old(self).output_sets@.len(),
                flags@.len() == old(self).output_sets@.len(),
                forall|t: int|
                    0 <= t < old(self).output_sets@.len() ==> (#[trigger] flags@[t])
                        == spec_touched(old(self).rules@, list.take(k as int), t),
                forall|t: int|
                    0 <= t < old(self).output_sets@.len() ==> (
                    #[trigger] self.output_sets@[t]).output == old(self).output_sets@[t].output
                        && self.output_sets@[t].f == old(self).output_sets@[t].f
                        && self.output_sets@[t].input_membership as int == (if spec_touched(
                        old(self).rules@,
                        list.take(k as int),
                        t,
                    ) {
                        0
                    } else {
                        old(self).output_sets@[t].input_membership as int
                    }),
            decreases m - k,
        {
            let rid = self.rule_sets[rule_set.id].rules[k];
            let t = self.rules[rid.id].output_set;
            flags.set(t.id, true);
            let entry = &mut self.output_sets[t.id];
            entry.input_membership = 0;
            proof {
                lemma_touched_take_succ(old(self).rules@, list, k as int);
                assert(list.take(k + 1).last() == list[k as int]);
            }
            k = k + 1;
        }
        proof {
            assert(list.take(m as int) =~= list);
        }
        flags
    }

    /// Rule firing and aggregation: every touched output set ends with
    /// the maximum firing strength of the rules of the set that target
    /// it, each strength the minimum of the rule's antecedent degrees.
    fn aggregate_rules(&mut self, rule_set: RuleSetId)
        requires
            old(self).wf(),
            rule_set.id < old(self).rule_sets@.len(),
            forall|t: int|
                0 <= t < old(self).output_sets@.len() && spec_touched(
                    old(self).rules@,
                    old(self).rule_sets@[rule_set.id as int].rules@,
                    t,
                ) ==> (#[trigger] old(self).output_sets@[t]).input_membership == 0,
        ensures
            final(self).wf(),
            final(self).inputs@ == old(self).inputs@,
            final(self).outputs@ == old(self).outputs@,
            final(self).input_sets@ == old(self).input_sets@,
            final(self).rules@ == old(self).rules@,
            final(self).rule_sets@ == old(self).rule_sets@,
            final(self).output_sets@.len() == old(self).output_sets@.len(),
            forall|t: int|
                0 <= t < old(self).output_sets@.len() ==> (#[trigger] final(self).output_sets@[t]).output
                    == old(self).output_sets@[t].output && final(self).output_sets@[t].f
                    == old(self).output_sets@[t].f
                    && final(self).output_sets@[t].input_membership as int == (if spec_touched(
                    old(self).rules@,
                    old(self).rule_sets@[rule_set.id as int].rules@,
                    t,
                ) {
                    agg_strength(
                        old(self).rules@,
                        old(self).rule_sets@[rule_set.id as int].rules@,
                        memberships(old(self).input_sets@),
                        t,
                    )
                } else {
                    old(self).output_sets@[t].input_membership as int
                }),
    {
        let ghost list = self.rule_sets@[rule_set.id as int].rules@;
        let ghost degs = memberships(self.input_sets@);
        let m = self.rule_sets[rule_set.id].rules.len();
        let mut k: usize = 0;
        proof {
            assert(list.take(0) =~= Seq::<RuleId>::empty());
        }
        while k < m
            invariant
                k <= m,
                m == list.len(),
                self.wf(),
                rule_set.id < self.rule_sets@.len(),
                list == self.rule_sets@[rule_set.id as int].rules@,
                degs == memberships(old(self).input_sets@),
                self.inputs@ == old(self).inputs@,
                self.outputs@ == old(self).outputs@,
                self.input_sets@ == old(self).input_sets@,
                self.rules@ == old(self).rules@,
                self.rule_sets@ == old(self).rule_sets@,
                self.output_sets@.len() == old(self).output_sets@.len(),
                forall|t: int|
                    0 <= t < old(self).output_sets@.len() && spec_touched(
                        old(self).rules@,
                        list,
                        t,
                    ) ==> (#[trigger] old(self).output_sets@[t]).input_membership == 0,
                forall|t: int|
                    0 <= t < old(self).output_sets@.len() ==> (
                    #[trigger] self.output_sets@[t]).output == old(self).output_sets@[t].output
                        && self.output_sets@[t].f == old(self).output_sets@[t].f
                        && self.output_sets@[t].input_membership as int == (if spec_touched(
                        old(self).rules@,
                        list,
                        t,
                    ) {
                        agg_strength(old(self).rules@, list.take(k as int), degs, t)
                    } else {
                        old(self).output_sets@[t].input_membership as int
                    }),
            decreases m - k,
        {
            let rid = self.rule_sets[rule_set.id].rules[k];
            let firing = compute_input_membership(&self.rules, &self.input_sets, rid);
            let t = self.rules[rid.id].output_set;
            proof {
                assert(spec_touched(old(self).rules@, list, t.id as int));
                assert(list.take(k + 1).drop_last() =~= list.take(k as int));
                assert(list.take(k + 1).last() == list[k as int]);
                lemma_agg_strength_bounds(old(self).rules@, list.take(k + 1), degs, t.id as int);
            }
            let cur = self.output_sets[t.id].input_membership;
            if firing > cur {
                let entry = &mut self.output_sets[t.id];
                entry.input_membership = firing;
            }
            proof {
                assert forall|t2: int|
                    0 <= t2 < old(self).output_sets@.len() implies (
                #[trigger] self.output_sets@[t2]).input_membership as int == (if spec_touched(
                    old(self).rules@,
                    list,
                    t2,
                ) {
                    agg_strength(old(self).rules@, list.take(k + 1), degs, t2)
                } else {
                    old(self).output_sets@[t2].input_membership as int
                }) by {
                    assert(list.take(k + 1).drop_last() =~= list.take(k as int));
                }
            }
            k = k + 1;
        }
        proof {
            assert(list.take(m as int) =~= list);
        }
    }
}

/// `cached` lists, in strictly increasing handle order, exactly the
/// output sets below `n` whose flag is set and whose output is `o`.
spec fn cached_flags_upto(
    output_sets: Seq<OutputSet>,
    flags: Seq<bool>,
    o: int,
    cached: Seq<OutputSetId>,
    n: int,
) -> bool {
    &&& forall|a: int, b: int|
        0 <= a < b < cached.len() ==> (#[trigger] cached[a]).id < (#[trigger] cached[b]).id
    &&& forall|j: int|
        0 <= j < cached.len() ==> (#[trigger] cached[j]).id < n && output_sets[cached[j].id as int].output.id
            == o && flags[cached[j].id as int]
    &&& forall|t: int|
        0 <= t < n && (#[trigger] output_sets[t]).output.id == o && flags[t] ==> in_os_list(
            cached,
            t,
        )
}

proof fn lemma_in_os_list_push(ids: Seq<OutputSetId>, x: OutputSetId, t: int)
    requires
        in_os_list(ids, t),
    ensures
        in_os_list(ids.push(x), t),
{
    let j = choose|j: int| 0 <= j < ids.len() && (#[trigger] ids[j]).id == t;
    assert(ids.push(x)[j] == ids[j]);
}

impl Fuzzy {
    /// Rebuilds every output's list of touched output sets: ascending
    /// handle order, free of duplicates, exactly the flagged sets.
    fn rebuild_cached(&mut self, flags: &Vec<bool>)
        requires
            old(self).wf(),
            flags@.len() == old(self).output_sets@.len(),
        ensures
            final(self).wf(),
            final(self).inputs@ == old(self).inputs@,
            final(self).input_sets@ == old(self).input_sets@,
            final(self).output_sets@ == old(self).output_sets@,
            final(self).rules@ == old(self).rules@,
            final(self).rule_sets@ == old(self).rule_sets@,
            final(self).outputs@.len() == old(self).outputs@.len(),
            forall|o: int|
                0 <= o < old(self).outputs@.len() ==> (#[trigger] final(self).outputs@[o]).min
                    == old(self).outputs@[o].min && final(self).outputs@[o].max == old(
                    self,
                ).outputs@[o].max && final(self).outputs@[o].value == old(self).outputs@[o].value,
            forall|o: int|
                0 <= o < old(self).outputs@.len() ==> cached_flags_upto(
                    old(self).output_sets@,
                    flags@,
                    o,
                    (#[trigger] final(self).outputs@[o]).cached_output_sets@,
                    old(self).output_sets@.len() as int,
                ),
    {
        let n_out = self.outputs.len();
        let mut o: usize = 0;
        while o < n_out
            invariant
                o <= n_out,
                n_out == old(self).outputs@.len(),
                self.wf(),
                self.inputs@ == old(self).inputs@,
                self.input_sets@ == old(self).input_sets@,
                self.output_sets@ == old(self).output_sets@,
                self.rules@ == old(self).rules@,
                self.rule_sets@ == old(self).rule_sets@,
                self.outputs@.len() == old(self).outputs@.len(),
                forall|o2: int|
                    0 <= o2 < old(self).outputs@.len() ==> (#[trigger] self.outputs@[o2]).min
                        == old(self).outputs@[o2].min && self.outputs@[o2].max == old(
                        self,
                    ).outputs@[o2].max && self.outputs@[o2].value == old(self).outputs@[o2].value,
                forall|o2: int|
                    0 <= o2 < o ==> (#[trigger] self.outputs@[o2]).cached_output_sets@.len() == 0,
            decreases n_out - o,
        {
            let entry = &mut self.outputs[o];
            entry.cached_output_sets = Vec::new();
            o = o + 1;
        }
        let n_sets = self.output_sets.len();
        let mut t: usize = 0;
        while t < n_sets
            invariant
                t <= n_sets,
                n_sets == old(self).output_sets@.len(),
                flags@.len() == old(self).output_sets@.len(),
                self.wf(),
                self.inputs@ == old(self).inputs@,
                self.input_sets@ == old(self).input_sets@,
                self.output_sets@ == old(self).output_sets@,
                self.rules@ == old(self).rules@,
                self.rule_sets@ == old(self).rule_sets@,
                self.outputs@.len() == old(self).outputs@.len(),
                forall|o2: int|
                    0 <= o2 < old(self).outputs@.len() ==> (#[trigger] self.outputs@[o2]).min
                        == old(self).outputs@[o2].min && self.outputs@[o2].max == old(
                        self,
                    ).outputs@[o2].max && self.outputs@[o2].value == old(self).outputs@[o2].value,
                forall|o2: int|
                    0 <= o2 < old(self).outputs@.len() ==> cached_flags_upto(
                        old(self).output_sets@,
                        flags@,
                        o2,
                        (#[trigger] self.outputs@[o2]).cached_output_sets@,
                        t as int,
                    ),
            decreases n_sets - t,
        {
            if flags[t] {
                let o_id = self.output_sets[t].output;
                let ghost cached_before = self.outputs@[o_id.id as int].cached_output_sets@;
                let entry = &mut self.outputs[o_id.id];
                entry.cached_output_sets.push(OutputSetId { id: t });
                proof {
                    let cached_now = self.outputs@[o_id.id as int].cached_output_sets@;
                    assert(cached_now == cached_before.push((OutputSetId { id: t })));
                    assert(cached_now.last().id == t as int);
                    assert forall|o2: int|
                        0 <= o2 < old(self).outputs@.len() implies cached_flags_upto(
                        old(self).output_sets@,
                        flags@,
                        o2,
                        (#[trigger] self.outputs@[o2]).cached_output_sets@,
                        t + 1,
                    ) by {
                        if o2 == o_id.id as int {
                            assert forall|t2: int|
                                0 <= t2 < t + 1 && (#[trigger] old(self).output_sets@[t2]).output.id
                                    == o2 && flags@[t2] implies in_os_list(cached_now, t2) by {
                                if t2 < t {
                                    lemma_in_os_list_push(
                                        cached_before,
                                        (OutputSetId { id: t }),
                                        t2,
                                    );
                                } else {
                                    assert(cached_now[cached_now.len() - 1].id == t2);
                                }
                            }
                        } else {
                            assert forall|t2: int|
                                0 <= t2 < t + 1 && (#[trigger] old(self).output_sets@[t2]).output.id
                                    == o2 && flags@[t2] implies in_os_list(
                                self.outputs@[o2].cached_output_sets@,
                                t2,
                            ) by {
                                assert(t2 < t);
                            }
                        }
                    }
                }
            }
            t = t + 1;
        }
    }

    /// Defuzzification: every output whose cached list is non-empty
    /// (that is, every output touched this call) gets the centroid of
    /// its envelope; the others keep their previous crisp value.
    fn defuzz_outputs(&mut self)
        requires
            old(self).wf(),
        ensures
            final(self).wf(),
            final(self).inputs@ == old(self).inputs@,
            final(self).input_sets@ == old(self).input_sets@,
            final(self).output_sets@ == old(self).output_sets@,
            final(self).rules@ == old(self).rules@,
            final(self).rule_sets@ == old(self).rule_sets@,
            final(self).outputs@.len() == old(self).outputs@.len(),
            forall|o: int|
                0 <= o < old(self).outputs@.len() ==> (#[trigger] final(self).outputs@[o]).min
                    == old(self).outputs@[o].min && final(self).outputs@[o].max == old(
                    self,
                ).outputs@[o].max && final(self).outputs@[o].cached_output_sets@ == old(
                    self,
                ).outputs@[o].cached_output_sets@,
            forall|o: int|
                0 <= o < old(self).outputs@.len() ==> (#[trigger] final(self).outputs@[o]).value
                    == (if old(self).outputs@[o].cached_output_sets@.len() > 0 {
                    spec_defuzz(
                        old(self).output_sets@,
                        old(self).outputs@[o].cached_output_sets@,
                        old(self).outputs@[o].min as int,
                        old(self).outputs@[o].max as int,
                    )
                } else {
                    old(self).outputs@[o].value
                }),
    {
        let n_out = self.outputs.len();
        let mut o: usize = 0;
        while o < n_out
            invariant
                o <= n_out,
                n_out == old(self).outputs@.len(),
                self.wf(),
                self.inputs@ == old(self).inputs@,
                self.input_sets@ == old(self).input_sets@,
                self.output_sets@ == old(self).output_sets@,
                self.rules@ == old(self).rules@,
                self.rule_sets@ == old(self).rule_sets@,
                self.outputs@.len() == old(self).outputs@.len(),
                forall|o2: int|
                    0 <= o2 < old(self).outputs@.len() ==> (#[trigger] self.outputs@[o2]).min
                        == old(self).outputs@[o2].min && self.outputs@[o2].max == old(
                        self,
                    ).outputs@[o2].max && self.outputs@[o2].cached_output_sets@ == old(
                        self,
                    ).outputs@[o2].cached_output_sets@,
                forall|o2: int|
                    0 <= o2 < old(self).outputs@.len() ==> (#[trigger] self.outputs@[o2]).value
                        == (if o2 < o && old(self).outputs@[o2].cached_output_sets@.len() > 0 {
                        spec_defuzz(
                            old(self).output_sets@,
                            old(self).outputs@[o2].cached_output_sets@,
                            old(self).outputs@[o2].min as int,
                            old(self).outputs@[o2].max as int,
                        )
                    } else {
                        old(self).outputs@[o2].value
                    }),
            decreases n_out - o,
        {
            if self.outputs[o].cached_output_sets.len() > 0 {
                let v = defuzzificate(&self.output_sets, &self.outputs[o]);
                let entry = &mut self.outputs[o];
                entry.value = v;
            }
            o = o + 1;
        }
    }
}

/// `cached` lists, in strictly increasing handle order, exactly the
/// output sets of output `o` that the rule list touches.
pub open spec fn cached_touched_exact(
    pre: Fuzzy,
    list: Seq<RuleId>,
    o: int,
    cached: Seq<OutputSetId>,
) -> bool {
    &&& forall|a: int, b: int|
        0 <= a < b < cached.len() ==> (#[trigger] cached[a]).id < (#[trigger] cached[b]).id
    &&& forall|j: int|
        0 <= j < cached.len() ==> (#[trigger] cached[j]).id < pre.output_sets@.len()
            && pre.output_sets@[cached[j].id as int].output.id == o && spec_touched(
            pre.rules@,
            list,
            cached[j].id as int,
        )
    &&& forall|t: int|
        0 <= t < pre.output_sets@.len() && (#[trigger] pre.output_sets@[t]).output.id == o
            && spec_touched(pre.rules@, list, t) ==> in_os_list(cached, t)
}

/// Some output set of output `o` is touched by the rule list.
pub open spec fn spec_touched_output(pre: Fuzzy, list: Seq<RuleId>, o: int) -> bool {
    exists|t: int|
        0 <= t < pre.output_sets@.len() && (#[trigger] pre.output_sets@[t]).output.id == o
            && spec_touched(pre.rules@, list, t)
}

/// How one `evaluate` call transforms the engine: the complete relation
/// between the state before (`pre`) and after (`post`).  Every
/// right-hand side is computed from `pre` alone, so the post state is a
/// function of the current input values and the rule set structure.
pub open spec fn evaluate_rel(pre: Fuzzy, post: Fuzzy, rs: int) -> bool {
    let list = pre.rule_sets@[rs].rules@;
    let degs = degrees_after(pre, list);
    &&& post.inputs@ == pre.inputs@
    &&& post.rules@ == pre.rules@
    &&& post.rule_sets@ == pre.rule_sets@
    // fuzzification: exactly the referenced input sets get fresh degrees
    &&& post.input_sets@.len() == pre.input_sets@.len()
    &&& forall|s: int|
        0 <= s < pre.input_sets@.len() ==> (#[trigger] post.input_sets@[s]).input
            == pre.input_sets@[s].input && post.input_sets@[s].f == pre.input_sets@[s].f
            && post.input_sets@[s].membership as int == degs[s]
    // aggregation: touched output sets carry the max over their rules'
    // firing strengths, the rest keep their stale strength
    &&& post.output_sets@.len() == pre.output_sets@.len()
    &&& forall|t: int|
        0 <= t < pre.output_sets@.len() ==> (#[trigger] post.output_sets@[t]).output
            == pre.output_sets@[t].output && post.output_sets@[t].f == pre.output_sets@[t].f
            && post.output_sets@[t].input_membership as int == (
        if spec_touched(pre.rules@, list, t) {
            agg_strength(pre.rules@, list, degs, t)
        } else {
            pre.output_sets@[t].input_membership as int
        })
    // defuzzification: touched outputs get the centroid of their
    // envelope, untouched outputs carry their previous value over
    &&& post.outputs@.len() == pre.outputs@.len()
    &&& forall|o: int|
        0 <= o < pre.outputs@.len() ==> (#[trigger] post.outputs@[o]).min == pre.outputs@[o].min
            && post.outputs@[o].max == pre.outputs@[o].max && cached_touched_exact(
            pre,
            list,
            o,
            post.outputs@[o].cached_output_sets@,
        ) && post.outputs@[o].value == (if spec_touched_output(pre, list, o) {
            spec_defuzz(
                post.output_sets@,
                post.outputs@[o].cached_output_sets@,
                pre.outputs@[o].min as int,
                pre.outputs@[o].max as int,
            )
        } else {
            pre.outputs@[o].value
        })
}

/// Law: fuzzy AND is the minimum.  A rule's firing strength is a lower
/// bound of its antecedents' degrees and, for a rule with at least one
/// antecedent, is attained by one of them.
pub proof fn lemma_and_strength_is_min(ants: Seq<InputSetId>, degs: Seq<int>)
    requires
        forall|i: int| 0 <= i < degs.len() ==> 0 <= #[trigger] degs[i] <= SCALE,
        forall|j: int| 0 <= j < ants.len() ==> (#[trigger] ants[j]).id < degs.len(),
    ensures
        forall|j: int|
            0 <= j < ants.len() ==> and_strength(ants, degs) <= degs[(#[trigger] ants[j]).id as int],
        ants.len() > 0 ==> exists|j: int|
            0 <= j < ants.len() && and_strength(ants, degs) == degs[(#[trigger] ants[j]).id as int],
    decreases ants.len(),
{
    if ants.len() > 0 {
        let front = ants.drop_last();
        lemma_and_strength_is_min(front, degs);
        lemma_and_strength_bounds(front, degs);
        let prev = and_strength(front, degs);
        let last_deg = degs[ants.last().id as int];
        assert forall|j: int|
            0 <= j < ants.len() implies and_strength(ants, degs) <= degs[(
        #[trigger] ants[j]).id as int] by {
            if j < ants.len() - 1 {
                assert(front[j] == ants[j]);
            }
        }
        if prev <= last_deg {
            if front.len() == 0 {
                // the fold starts at full membership, so a singleton
                // rule fires with exactly its antecedent's degree
                assert(and_strength(ants, degs) == last_deg) by {
                    assert(prev == SCALE as int);
                }
                assert(ants[ants.len() - 1].id == ants.last().id);
            } else {
                let j = choose|j: int|
                    0 <= j < front.len() && prev == degs[(#[trigger] front[j]).id as int];
                assert(front[j] == ants[j]);
                assert(and_strength(ants, degs) == degs[ants[j].id as int]);
            }
        } else {
            assert(and_strength(ants, degs) == degs[ants[ants.len() - 1].id as int]);
        }
    }
}

/// An output set that no rule of the list targets keeps the fold's
/// starting accumulator, zero.
proof fn lemma_agg_untouched(rules: Seq<Rule>, list: Seq<RuleId>, degs: Seq<int>, t: int)
    requires
        !spec_touched(rules, list, t),
    ensures
        agg_strength(rules, list, degs, t) == 0,
    decreases list.len(),
{
    if list.len() > 0 {
        let front = list.drop_last();
        assert(!spec_touched(rules, front, t)) by {
            if spec_touched(rules, front, t) {
                let k = choose|k: int|
                    0 <= k < front.len() && rules[(#[trigger] front[k]).id as int].output_set.id
                        == t;
                assert(front[k] == list[k]);
                assert(spec_touched(rules, list, t));
            }
        }
        lemma_agg_untouched(rules, front, degs, t);
        assert(rules[list.last().id as int].output_set.id != t) by {
            assert(list[list.len() - 1] == list.last());
        }
    }
}

/// Law: fuzzy OR aggregation is the maximum.  A touched output set's
/// strength bounds the firing strength of every rule of the list that
/// targets it, and equals the strength of one such rule.
pub proof fn lemma_agg_strength_is_max(rules: Seq<Rule>, list: Seq<RuleId>, degs: Seq<int>, t: int)
    requires
        forall|i: int| 0 <= i < degs.len() ==> 0 <= #[trigger] degs[i] <= SCALE,
        forall|k: int| 0 <= k < list.len() ==> (#[trigger] list[k]).id < rules.len(),
        forall|r: int, j: int|
            0 <= r < rules.len() && 0 <= j < (#[trigger] rules[r]).input_sets@.len() ==> (
            #[trigger] rules[r].input_sets@[j]).id < degs.len(),
    ensures
        forall|k: int|
            0 <= k < list.len() && rules[(#[trigger] list[k]).id as int].output_set.id == t
                ==> and_strength(rules[list[k].id as int].input_sets@, degs) <= agg_strength(
                rules,
                list,
                degs,
                t,
            ),
        spec_touched(rules, list, t) ==> exists|k: int|
            0 <= k < list.len() && rules[(#[trigger] list[k]).id as int].output_set.id == t
                && agg_strength(rules, list, degs, t) == and_strength(
                rules[list[k].id as int].input_sets@,
                degs,
            ),
    decreases list.len(),
{
    if list.len() > 0 {
        let front = list.drop_last();
        lemma_agg_strength_is_max(rules, front, degs, t);
        let prev = agg_strength(rules, front, degs, t);
        let last_rule = rules[list.last().id as int];
        assert forall|k: int|
            0 <= k < list.len() && rules[(#[trigger] list[k]).id as int].output_set.id == t implies
            and_strength(rules[list[k].id as int].input_sets@, degs) <= agg_strength(
            rules,
            list,
            degs,
            t,
        ) by {
            if k < list.len() - 1 {
                assert(front[k] == list[k]);
            } else {
                assert(list[k] == list.last());
            }
        }
        if spec_touched(rules, list, t) {
            if last_rule.output_set.id == t {
                let s_last = and_strength(last_rule.input_sets@, degs);
                lemma_and_strength_bounds(last_rule.input_sets@, degs);
                if prev <= s_last {
                    assert(list[list.len() - 1] == list.last());
                    assert(agg_strength(rules, list, degs, t) == s_last);
                } else {
                    // the accumulator exceeds the last strength, so it
                    // was attained by an earlier rule
                    assert(spec_touched(rules, front, t)) by {
                        if !spec_touched(rules, front, t) {
                            lemma_agg_untouched(rules, front, degs, t);
                        }
                    }
                    let k = choose|k: int|
                        0 <= k < front.len() && rules[(#[trigger] front[k]).id as int].output_set.id
                            == t && prev == and_strength(
                            rules[front[k].id as int].input_sets@,
                            degs,
                        );
                    assert(front[k] == list[k]);
                    assert(agg_strength(rules, list, degs, t) == and_strength(
                        rules[list[k].id as int].input_sets@,
                        degs,
                    ));
                }
            } else {
                assert(spec_touched(rules, front, t)) by {
                    let k = choose|k: int|
                        0 <= k < list.len() && rules[(#[trigger] list[k]).id as int].output_set.id
                            == t;
                    assert(k < list.len() - 1) by {
                        assert(list[list.len() - 1] == list.last());
                    }
                    assert(front[k] == list[k]);
                }
                let k = choose|k: int|
                    0 <= k < front.len() && rules[(#[trigger] front[k]).id as int].output_set.id
                        == t && prev == and_strength(rules[front[k].id as int].input_sets@, degs);
                assert(front[k] == list[k]);
            }
        }
    }
}

proof fn lemma_envelope_zero(output_sets: Seq<OutputSet>, cached: Seq<OutputSetId>, x: int)
    requires
        forall|j: int| 0 <= j < cached.len() ==> (#[trigger] cached[j]).id < output_sets.len(),
        forall|t: int| 0 <= t < output_sets.len() ==> (#[trigger] output_sets[t]).f.wf(),
        forall|j: int|
            0 <= j < cached.len() ==> output_sets[(#[trigger] cached[j]).id as int].input_membership
                == 0,
    ensures
        envelope_over(output_sets, cached, x) == 0,
    decreases cached.len(),
{
    if cached.len() > 0 {
        let front = cached.drop_last();
        assert(forall|j: int| 0 <= j < front.len() ==> front[j] == (#[trigger] cached[j]));
        lemma_envelope_zero(output_sets, front, x);
        assert(cached[cached.len() - 1] == cached.last());
        lemma_pl_eval_bounds(output_sets[cached.last().id as int].f.points@, x);
    }
}

proof fn lemma_defuzz_sums_zero(
    output_sets: Seq<OutputSet>,
    cached: Seq<OutputSetId>,
    lo: int,
    range: int,
    k: int,
)
    requires
        forall|j: int| 0 <= j < cached.len() ==> (#[trigger] cached[j]).id < output_sets.len(),
        forall|t: int| 0 <= t < output_sets.len() ==> (#[trigger] output_sets[t]).f.wf(),
        forall|j: int|
            0 <= j < cached.len() ==> output_sets[(#[trigger] cached[j]).id as int].input_membership
                == 0,
    ensures
        defuzz_num6(output_sets, cached, lo, range, k) == 0,
        defuzz_den2(output_sets, cached, lo, range, k) == 0,
    decreases k,
{
    if k > 0 {
        lemma_defuzz_sums_zero(output_sets, cached, lo, range, k - 1);
        let u1 = sample_u(range, k - 1);
        let u2 = sample_u(range, k);
        lemma_envelope_zero(output_sets, cached, lo + u1);
        lemma_envelope_zero(output_sets, cached, lo + u2);
        assert(seg_area2(u1, u2, 0, 0) == 0) by (nonlinear_arith);
        assert(seg_moment6(u1, u2, 0, 0) == 0) by (nonlinear_arith);
    }
}

/// Law: the degenerate case surfaces.  An output all of whose cached
/// output sets carry firing strength zero defuzzifies to `NonFinite`,
/// which callers can detect with a finiteness check.
pub proof fn lemma_zero_strengths_defuzz_nonfinite(
    output_sets: Seq<OutputSet>,
    cached: Seq<OutputSetId>,
    lo: int,
    hi: int,
)
    requires
        forall|j: int| 0 <= j < cached.len() ==> (#[trigger] cached[j]).id < output_sets.len(),
        forall|t: int| 0 <= t < output_sets.len() ==> (#[trigger] output_sets[t]).f.wf(),
        forall|j: int|
            0 <= j < cached.len() ==> output_sets[(#[trigger] cached[j]).id as int].input_membership
                == 0,
    ensures
        spec_defuzz(output_sets, cached, lo, hi) == CrispValue::NonFinite,
{
    lemma_defuzz_sums_zero(output_sets, cached, lo, hi - lo, INTEGRAL_STEP as int);
}

/// An envelope value is a degree whenever the sets' strengths are.
proof fn lemma_envelope_bounds(output_sets: Seq<OutputSet>, cached: Seq<OutputSetId>, x: int)
    requires
        forall|j: int| 0 <= j < cached.len() ==> (#[trigger] cached[j]).id < output_sets.len(),
        forall|t: int|
            0 <= t < output_sets.len() ==> (#[trigger] output_sets[t]).f.wf() && 0
                <= output_sets[t].input_membership <= SCALE,
    ensures
        0 <= envelope_over(output_sets, cached, x) <= SCALE,
    decreases cached.len(),
{
    if cached.len() > 0 {
        let front = cached.drop_last();
        assert(forall|j: int| 0 <= j < front.len() ==> front[j] == (#[trigger] cached[j]));
        lemma_envelope_bounds(output_sets, front, x);
        assert(cached[cached.len() - 1] == cached.last());
        lemma_pl_eval_bounds(output_sets[cached.last().id as int].f.points@, x);
    }
}

/// The running centroid sums stay nonnegative, and the moment sum
/// never exceeds `3 * range` times the area sum.
proof fn lemma_defuzz_sums_bounds(
    output_sets: Seq<OutputSet>,
    cached: Seq<OutputSetId>,
    lo: int,
    range: int,
    k: int,
)
    requires
        0 <= range <= 2 * VALUE_LIMIT,
        0 <= k <= INTEGRAL_STEP,
        forall|j: int| 0 <= j < cached.len() ==> (#[trigger] cached[j]).id < output_sets.len(),
        forall|t: int|
            0 <= t < output_sets.len() ==> (#[trigger] output_sets[t]).f.wf() && 0
                <= output_sets[t].input_membership <= SCALE,
    ensures
        0 <= defuzz_den2(output_sets, cached, lo, range, k),
        0 <= defuzz_num6(output_sets, cached, lo, range, k),
        defuzz_num6(output_sets, cached, lo, range, k) <= 3 * (range * defuzz_den2(
            output_sets,
            cached,
            lo,
            range,
            k,
        )),
    decreases k,
{
    if k > 0 {
        lemma_defuzz_sums_bounds(output_sets, cached, lo, range, k - 1);
        lemma_sample_props(range, k - 1);
        let u1 = sample_u(range, k - 1);
        let u2 = sample_u(range, k);
        let y1 = envelope_over(output_sets, cached, lo + u1);
        let y2 = envelope_over(output_sets, cached, lo + u2);
        lemma_envelope_bounds(output_sets, cached, lo + u1);
        lemma_envelope_bounds(output_sets, cached, lo + u2);
        lemma_seg_bounds(u1, u2, y1, y2, range);
        assert(3 * (range * (defuzz_den2(output_sets, cached, lo, range, k - 1) + seg_area2(
            u1,
            u2,
            y1,
            y2,
        ))) == 3 * (range * defuzz_den2(output_sets, cached, lo, range, k - 1)) + 3 * (range
            * seg_area2(u1, u2, y1, y2))) by (nonlinear_arith);
    }
}

/// Law: the centroid never leaves the output's declared domain.  A
/// finite defuzzified value lies within `[lo, hi]`.
pub proof fn lemma_defuzz_in_domain(
    output_sets: Seq<OutputSet>,
    cached: Seq<OutputSetId>,
    lo: int,
    hi: int,
)
    requires
        -VALUE_LIMIT <= lo <= hi <= VALUE_LIMIT,
        forall|j: int| 0 <= j < cached.len() ==> (#[trigger] cached[j]).id < output_sets.len(),
        forall|t: int|
            0 <= t < output_sets.len() ==> (#[trigger] output_sets[t]).f.wf() && 0
                <= output_sets[t].input_membership <= SCALE,
    ensures
        spec_defuzz(output_sets, cached, lo, hi) matches CrispValue::Finite(v) ==> lo <= v <= hi,
{
    let range = hi - lo;
    lemma_defuzz_sums_bounds(output_sets, cached, lo, range, INTEGRAL_STEP as int);
    let n = defuzz_num6(output_sets, cached, lo, range, INTEGRAL_STEP as int);
    let d = defuzz_den2(output_sets, cached, lo, range, INTEGRAL_STEP as int);
    if d != 0 {
        assert(3 * (range * d) == range * (3 * d)) by (nonlinear_arith);
        vstd::arithmetic::div_mod::lemma_div_is_ordered(n, range * (3 * d), 3 * d);
        vstd::arithmetic::div_mod::lemma_div_by_multiple(range, 3 * d);
        vstd::arithmetic::div_mod::lemma_div_pos_is_pos(n, 3 * d);
    }
}

/// Two strictly ascending handle lists with the same members are the
/// same list.
proof fn lemma_ascending_exact_unique(a: Seq<OutputSetId>, b: Seq<OutputSetId>)
    requires
        forall|i: int, j: int| 0 <= i < j < a.len() ==> (#[trigger] a[i]).id < (#[trigger] a[j]).id,
        forall|i: int, j: int| 0 <= i < j < b.len() ==> (#[trigger] b[i]).id < (#[trigger] b[j]).id,
        forall|t: int| #[trigger] in_os_list(a, t) <==> #[trigger] in_os_list(b, t),
    ensures
        a == b,
    decreases a.len(),
{
    if a.len() == 0 {
        if b.len() > 0 {
            assert(in_os_list(b, b[0].id as int));
            assert(in_os_list(a, b[0].id as int));
            let j = choose|j: int| 0 <= j < a.len() && (#[trigger] a[j]).id == b[0].id;
            assert(false);
        }
        assert(a =~= b);
    } else {
        if b.len() == 0 {
            assert(in_os_list(a, a[0].id as int));
            assert(in_os_list(b, a[0].id as int));
            let j = choose|j: int| 0 <= j < b.len() && (#[trigger] b[j]).id == a[0].id;
            assert(false);
        }
        assert(in_os_list(a, a[0].id as int));
        assert(in_os_list(b, a[0].id as int));
        let jb = choose|j: int| 0 <= j < b.len() && (#[trigger] b[j]).id == a[0].id;
        assert(b[0].id <= b[jb].id);
        assert(in_os_list(b, b[0].id as int));
        assert(in_os_list(a, b[0].id as int));
        let ja = choose|j: int| 0 <= j < a.len() && (#[trigger] a[j]).id == b[0].id;
        assert(a[0].id <= a[ja].id);
        assert(a[0].id == b[0].id);
        assert(a[0] == b[0]);
        let at = a.drop_first();
        let bt = b.drop_first();
        assert(forall|i: int| 0 <= i < at.len() ==> #[trigger] at[i] == a[i + 1]);
        assert(forall|i: int| 0 <= i < bt.len() ==> #[trigger] bt[i] == b[i + 1]);
        assert forall|t: int| #[trigger] in_os_list(at, t) <==> #[trigger] in_os_list(bt, t) by {
            if in_os_list(at, t) {
                let i = choose|i: int| 0 <= i < at.len() && (#[trigger] at[i]).id == t;
                assert(a[i + 1].id == t);
                assert(t > a[0].id);
                assert(in_os_list(a, t));
                assert(in_os_list(b, t));
                let j = choose|j: int| 0 <= j < b.len() && (#[trigger] b[j]).id == t;
                assert(j > 0) by {
                    assert(b[0].id == a[0].id);
                }
                assert(bt[j - 1].id == t);
                assert(in_os_list(bt, t));
            }
            if in_os_list(bt, t) {
                let i = choose|i: int| 0 <= i < bt.len() && (#[trigger] bt[i]).id == t;
                assert(b[i + 1].id == t);
                assert(t > b[0].id);
                assert(in_os_list(b, t));
                assert(in_os_list(a, t));
                let j = choose|j: int| 0 <= j < a.len() && (#[trigger] a[j]).id == t;
                assert(j > 0) by {
                    assert(a[0].id == b[0].id);
                }
                assert(at[j - 1].id == t);
                assert(in_os_list(at, t));
            }
        }
        lemma_ascending_exact_unique(at, bt);
        assert(a.len() == b.len());
        assert forall|i: int| 0 <= i < a.len() implies a[i] == b[i] by {
            if i > 0 {
                assert(at[i - 1] == a[i]);
                assert(bt[i - 1] == b[i]);
                assert(at[i - 1] == bt[i - 1]);
            }
        }
        assert(a =~= b);
    }
}

/// Law: `evaluate` is deterministic.  The relation it establishes pins
/// the post state down: any two states related to the same pre state by
/// the same rule set agree on every variable, degree, strength, cached
/// list and crisp value.
pub proof fn lemma_evaluate_deterministic(pre: Fuzzy, a: Fuzzy, b: Fuzzy, rs: int)
    requires
        pre.wf(),
        0 <= rs < pre.rule_sets@.len(),
        evaluate_rel(pre, a, rs),
        evaluate_rel(pre, b, rs),
    ensures
        a.inputs@ == b.inputs@,
        a.rules@ == b.rules@,
        a.rule_sets@ == b.rule_sets@,
        a.input_sets@ == b.input_sets@,
        a.output_sets@ == b.output_sets@,
        a.outputs@.len() == b.outputs@.len(),
        forall|o: int|
            0 <= o < a.outputs@.len() ==> (#[trigger] a.outputs@[o]).min == b.outputs@[o].min
                && a.outputs@[o].max == b.outputs@[o].max && a.outputs@[o].value
                == b.outputs@[o].value && a.outputs@[o].cached_output_sets@
                == b.outputs@[o].cached_output_sets@,
{
    let list = pre.rule_sets@[rs].rules@;
    assert(a.input_sets@ =~= b.input_sets@);
    assert(a.output_sets@ =~= b.output_sets@);
    assert forall|o: int|
        0 <= o < a.outputs@.len() implies (#[trigger] a.outputs@[o]).cached_output_sets@
        == b.outputs@[o].cached_output_sets@ by {
        let ca = a.outputs@[o].cached_output_sets@;
        let cb = b.outputs@[o].cached_output_sets@;
        assert forall|t: int| #[trigger] in_os_list(ca, t) <==> #[trigger] in_os_list(cb, t) by {
            if in_os_list(ca, t) {
                let j = choose|j: int| 0 <= j < ca.len() && (#[trigger] ca[j]).id == t;
                assert(in_os_list(cb, t));
            }
            if in_os_list(cb, t) {
                let j = choose|j: int| 0 <= j < cb.len() && (#[trigger] cb[j]).id == t;
                assert(in_os_list(ca, t));
            }
        }
        lemma_ascending_exact_unique(ca, cb);
    }
}

/// Law: `evaluate` is idempotent.  Evaluating the same rule set twice
/// without changing any input leaves the engine exactly as the first
/// evaluation did, so repeated calls read back identical outputs.
pub proof fn lemma_evaluate_idempotent(pre: Fuzzy, mid: Fuzzy, post: Fuzzy, rs: int)
    requires
        pre.wf(),
        0 <= rs < pre.rule_sets@.len(),
        evaluate_rel(pre, mid, rs),
        evaluate_rel(mid, post, rs),
    ensures
        post.inputs@ == mid.inputs@,
        post.rules@ == mid.rules@,
        post.rule_sets@ == mid.rule_sets@,
        post.input_sets@ == mid.input_sets@,
        post.output_sets@ == mid.output_sets@,
        post.outputs@.len() == mid.outputs@.len(),
        forall|o: int|
            0 <= o < mid.outputs@.len() ==> (#[trigger] post.outputs@[o]).min == mid.outputs@[o].min
                && post.outputs@[o].max == mid.outputs@[o].max && post.outputs@[o].value
                == mid.outputs@[o].value && post.outputs@[o].cached_output_sets@
                == mid.outputs@[o].cached_output_sets@,
{
    let list = pre.rule_sets@[rs].rules@;
    let degs = degrees_after(pre, list);
    assert(mid.rule_sets@[rs].rules@ == list);
    // after the first evaluation the recorded degrees are already the
    // fuzzified ones, so fuzzifying again changes nothing
    assert(degrees_after(mid, list) =~= degs);
    assert(post.input_sets@ =~= mid.input_sets@);
    assert(post.output_sets@ =~= mid.output_sets@);
    assert forall|o: int|
        0 <= o < mid.outputs@.len() implies (#[trigger] post.outputs@[o]).cached_output_sets@
        == mid.outputs@[o].cached_output_sets@ by {
        let cp = post.outputs@[o].cached_output_sets@;
        let cm = mid.outputs@[o].cached_output_sets@;
        assert(cached_touched_exact(mid, list, o, cp));
        assert(cached_touched_exact(pre, list, o, cm));
        assert forall|t: int| #[trigger] in_os_list(cp, t) <==> #[trigger] in_os_list(cm, t) by {
            if in_os_list(cp, t) {
                let j = choose|j: int| 0 <= j < cp.len() && (#[trigger] cp[j]).id == t;
                assert(mid.output_sets@[t].output == pre.output_sets@[t].output);
                assert(in_os_list(cm, t));
            }
            if in_os_list(cm, t) {
                let j = choose|j: int| 0 <= j < cm.len() && (#[trigger] cm[j]).id == t;
                assert(mid.output_sets@[t].output == pre.output_sets@[t].output);
                assert(in_os_list(cp, t));
            }
        }
        lemma_ascending_exact_unique(cp, cm);
    }
    assert forall|o: int|
        0 <= o < mid.outputs@.len() implies (#[trigger] post.outputs@[o]).value
        == mid.outputs@[o].value by {
        if spec_touched_output(mid, list, o) {
            let t = choose|t: int|
                0 <= t < mid.output_sets@.len() && (#[trigger] mid.output_sets@[t]).output.id == o
                    && spec_touched(mid.rules@, list, t);
            assert(pre.output_sets@[t].output == mid.output_sets@[t].output);
            assert(spec_touched_output(pre, list, o));
        }
        if spec_touched_output(pre, list, o) {
            let t = choose|t: int|
                0 <= t < pre.output_sets@.len() && (#[trigger] pre.output_sets@[t]).output.id == o
                    && spec_touched(pre.rules@, list, t);
            assert(mid.output_sets@[t].output == pre.output_sets@[t].output);
            assert(spec_touched_output(mid, list, o));
        }
    }
}

impl Fuzzy {
    /// Evaluates one rule set: fuzzifies the input sets it references,
    /// fires its rules, aggregates the strengths on the touched output
    /// sets, and defuzzifies every touched output.  Untouched outputs
    /// carry their previous crisp value over — that carry-over is how a
    /// caller-side state machine keeps unrelated outputs stable while
    /// swapping rule sets.
    pub fn evaluate(&mut self, rule_set: RuleSetId)
        requires
            old(self).wf(),
            rule_set.id < old(self).rule_sets@.len(),
        ensures
            final(self).wf(),
            evaluate_rel(*old(self), *final(self), rule_set.id as int),
    {
        let ghost pre = *self;
        let ghost list = pre.rule_sets@[rule_set.id as int].rules@;
        let ghost degs = degrees_after(pre, list);

        let dirty = collect_dirty_input_sets(&self.rule_sets, &self.rules, rule_set);
        proof {
            assert forall|j: int| 0 <= j < dirty@.len() implies (#[trigger] dirty@[j]).id
                < pre.input_sets@.len() by {
                assert(spec_dirty(pre.rules@, list, dirty@[j].id as int));
                let k = choose|k: int|
                    0 <= k < list.len() && rule_uses(
                        pre.rules@[(#[trigger] list[k]).id as int],
                        dirty@[j].id as int,
                    );
                let i = choose|i: int|
                    0 <= i < pre.rules@[list[k].id as int].input_sets@.len() && (
                    #[trigger] pre.rules@[list[k].id as int].input_sets@[i]).id == dirty@[j].id
                        as int;
            }
        }
        self.fuzzify_sets(&dirty);
        proof {
            // the recorded degrees now agree with the specified ones
            assert forall|s: int| 0 <= s < pre.input_sets@.len() implies (
            #[trigger] self.input_sets@[s]).membership as int == degs[s] by {
                if in_is_list(dirty@, s) {
                    let j = choose|j: int| 0 <= j < dirty@.len() && (#[trigger] dirty@[j]).id == s;
                    assert(spec_dirty(pre.rules@, list, s));
                }
            }
            assert(memberships(self.input_sets@) =~= degs);
        }
        let ghost post_fuzzify = *self;
        let flags = self.reset_touched(rule_set);
        let ghost post_reset = *self;
        self.aggregate_rules(rule_set);
        let ghost post_agg = *self;
        proof {
            assert forall|t: int| 0 <= t < pre.output_sets@.len() implies (
            #[trigger] post_agg.output_sets@[t]).input_membership as int == (if spec_touched(
                pre.rules@,
                list,
                t,
            ) {
                agg_strength(pre.rules@, list, degs, t)
            } else {
                pre.output_sets@[t].input_membership as int
            }) by {}
        }
        self.rebuild_cached(&flags);
        let ghost post_rebuild = *self;
        proof {
            // the flag-based description of the cached lists becomes
            // the touched-based one of the contract
            assert forall|o: int| 0 <= o < pre.outputs@.len() implies cached_touched_exact(
                pre,
                list,
                o,
                (#[trigger] post_rebuild.outputs@[o]).cached_output_sets@,
            ) by {
                let cached = post_rebuild.outputs@[o].cached_output_sets@;
                assert(cached_flags_upto(
                    post_agg.output_sets@,
                    flags@,
                    o,
                    cached,
                    pre.output_sets@.len() as int,
                ));
                assert forall|j: int| 0 <= j < cached.len() implies (#[trigger] cached[j]).id
                    < pre.output_sets@.len() && pre.output_sets@[cached[j].id as int].output.id
                    == o && spec_touched(pre.rules@, list, cached[j].id as int) by {
                    assert(post_agg.output_sets@[cached[j].id as int].output
                        == pre.output_sets@[cached[j].id as int].output);
                }
                assert forall|t: int|
                    0 <= t < pre.output_sets@.len() && (#[trigger] pre.output_sets@[t]).output.id
                        == o && spec_touched(pre.rules@, list, t) implies in_os_list(
                    cached,
                    t,
                ) by {
                    assert(post_agg.output_sets@[t].output == pre.output_sets@[t].output);
                    assert(flags@[t]);
                }
            }
        }
        self.defuzz_outputs();
        proof {
            assert forall|o: int| 0 <= o < pre.outputs@.len() implies (
            #[trigger] self.outputs@[o]).value == (if spec_touched_output(pre, list, o) {
                spec_defuzz(
                    self.output_sets@,
                    self.outputs@[o].cached_output_sets@,
                    pre.outputs@[o].min as int,
                    pre.outputs@[o].max as int,
                )
            } else {
                pre.outputs@[o].value
            }) by {
                let cached = post_rebuild.outputs@[o].cached_output_sets@;
                if cached.len() > 0 {
                    assert(cached[0].id < pre.output_sets@.len()
                        && pre.output_sets@[cached[0].id as int].output.id == o && spec_touched(
                        pre.rules@,
                        list,
                        cached[0].id as int,
                    ));
                    assert(spec_touched_output(pre, list, o));
                } else {
                    if spec_touched_output(pre, list, o) {
                        let t = choose|t: int|
                            0 <= t < pre.output_sets@.len() && (
                            #[trigger] pre.output_sets@[t]).output.id == o && spec_touched(
                                pre.rules@,
                                list,
                                t,
                            );
                        assert(in_os_list(cached, t));
                        let j = choose|j: int|
                            0 <= j < cached.len() && (#[trigger] cached[j]).id == t;
                        assert(false);
                    }
                }
            }
        }
    }
}

} // verus!
