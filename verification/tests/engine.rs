use fuzzy_drive::fuzzy::math::{integral, output_fuzzy_function, collect_dirty_input_sets};
use fuzzy_drive::fuzzy::{CrispValue, Fuzzy, MembershipFunction, SCALE};

#[test]
fn test_input_memberships() {
    // a small two-variable setup: inputs over [0, 4] and [0, 2] with
    // membership x/4, x/2, (4-x)/4 and (2-x)/2; one output over
    // [0, 1] with sets x and 1-x shared by two rules
    let mut fuzzy = Fuzzy::new();
    let i1 = fuzzy.add_input(0, 4_000_000);
    let i2 = fuzzy.add_input(0, 2_000_000);

    let o1 = fuzzy.add_output(0, 1_000_000);
    let o2 = fuzzy.add_output(0, 2_000_000);

    let is1 = fuzzy.add_input_set(i1, MembershipFunction::rising(0, 4_000_000));
    let is2 = fuzzy.add_input_set(i2, MembershipFunction::rising(0, 2_000_000));
    let is3 = fuzzy.add_input_set(i1, MembershipFunction::falling(0, 4_000_000));
    let is4 = fuzzy.add_input_set(i2, MembershipFunction::falling(0, 2_000_000));

    let os1 = fuzzy.add_output_set(o1, MembershipFunction::rising(0, 1_000_000));
    let os2 = fuzzy.add_output_set(o1, MembershipFunction::falling(0, 1_000_000));

    let r1 = fuzzy.add_rule(&vec![is1, is2], os1);
    let r2 = fuzzy.add_rule(&vec![is3, is4], os2);
    let rs1 = fuzzy.add_rule_set(&vec![r1, r2]);

    fuzzy.set_input(i1, 1_000_000);
    fuzzy.set_input(i2, 2_000_000);

    fuzzy.evaluate(rs1);

    assert_eq!(fuzzy.input_sets[is1.id].membership, 250_000);
    assert_eq!(fuzzy.input_sets[is2.id].membership, 1_000_000);
    assert_eq!(fuzzy.input_sets[is3.id].membership, 750_000);
    assert_eq!(fuzzy.input_sets[is4.id].membership, 0);

    assert_eq!(fuzzy.output_sets[os1.id].input_membership, 250_000);
    assert_eq!(fuzzy.output_sets[os2.id].input_membership, 0);

    assert_eq!(
        output_fuzzy_function(&fuzzy.output_sets, &fuzzy.outputs[o1.id], 250_000),
        250_000
    );
    assert_eq!(
        output_fuzzy_function(&fuzzy.output_sets, &fuzzy.outputs[o1.id], 500_000),
        250_000
    );
    assert_eq!(
        output_fuzzy_function(&fuzzy.output_sets, &fuzzy.outputs[o1.id], 125_000),
        125_000
    );

    assert_eq!(fuzzy.outputs[o1.id].value, CrispValue::Finite(559_523));
    assert_eq!(fuzzy.outputs[o2.id].value, CrispValue::Finite(0));
}

#[test]
fn test_integral() {
    // six times the moment of the interpolant from (0, 2) to (1, 3)
    let m6 = integral(0, 1_000_000, 2_000_000, 3_000_000);
    assert_eq!(m6, 8_000_000_000_000_000_000i128);
    // dividing by three times the doubled trapezoid area gives the
    // moment-to-area quotient 0.53333...
    let a2: i128 = 1_000_000 * (2_000_000 + 3_000_000);
    assert_eq!(m6 / (3 * a2), 533_333);
}

#[test]
fn and_is_min() {
    // antecedent degrees 0.25, 1.0 and 0.75 fire the rule at 0.25
    let mut fuzzy = Fuzzy::new();
    let i1 = fuzzy.add_input(0, 4_000_000);
    let i2 = fuzzy.add_input(0, 2_000_000);
    let o1 = fuzzy.add_output(0, 1_000_000);
    let is1 = fuzzy.add_input_set(i1, MembershipFunction::rising(0, 4_000_000));
    let is2 = fuzzy.add_input_set(i2, MembershipFunction::rising(0, 2_000_000));
    let is3 = fuzzy.add_input_set(i1, MembershipFunction::falling(0, 4_000_000));
    let os1 = fuzzy.add_output_set(o1, MembershipFunction::rising(0, 1_000_000));
    let r = fuzzy.add_rule(&vec![is1, is2, is3], os1);
    let rs = fuzzy.add_rule_set(&vec![r]);

    fuzzy.set_input(i1, 1_000_000);
    fuzzy.set_input(i2, 2_000_000);
    fuzzy.evaluate(rs);

    assert_eq!(fuzzy.input_sets[0].membership, 250_000);
    assert_eq!(fuzzy.input_sets[1].membership, 1_000_000);
    assert_eq!(fuzzy.input_sets[2].membership, 750_000);
    assert_eq!(fuzzy.output_sets[0].input_membership, 250_000);
}

#[test]
fn or_aggregation_is_max() {
    // rules firing at 0.3 and 0.7 on one output set leave it at 0.7
    let mut fuzzy = Fuzzy::new();
    let i1 = fuzzy.add_input(0, 1_000_000);
    let o1 = fuzzy.add_output(0, 1_000_000);
    let low = fuzzy.add_input_set(i1, MembershipFunction::rising(0, 1_000_000));
    let high = fuzzy.add_input_set(i1, MembershipFunction::falling(0, 1_000_000));
    let os = fuzzy.add_output_set(o1, MembershipFunction::rising(0, 1_000_000));
    let r1 = fuzzy.add_rule(&vec![low], os);
    let r2 = fuzzy.add_rule(&vec![high], os);
    let rs = fuzzy.add_rule_set(&vec![r1, r2]);

    fuzzy.set_input(i1, 300_000);
    fuzzy.evaluate(rs);

    assert_eq!(fuzzy.input_sets[0].membership, 300_000);
    assert_eq!(fuzzy.input_sets[1].membership, 700_000);
    assert_eq!(fuzzy.output_sets[0].input_membership, 700_000);
}

#[test]
fn carry_over_keeps_untouched_output() {
    // a rule set that never touches an output leaves its value alone
    let mut fuzzy = Fuzzy::new();
    let i1 = fuzzy.add_input(0, 1_000_000);
    let o1 = fuzzy.add_output(0, 1_000_000);
    let o2 = fuzzy.add_output(0, 1_000_000);
    let s1 = fuzzy.add_input_set(i1, MembershipFunction::rising(0, 1_000_000));
    let os1 = fuzzy.add_output_set(o1, MembershipFunction::rising(0, 1_000_000));
    let os2 = fuzzy.add_output_set(o2, MembershipFunction::rising(0, 1_000_000));
    let r1 = fuzzy.add_rule(&vec![s1], os1);
    let r2 = fuzzy.add_rule(&vec![s1], os2);
    let rs1 = fuzzy.add_rule_set(&vec![r1]);
    let rs2 = fuzzy.add_rule_set(&vec![r2]);

    fuzzy.set_input(i1, 1_000_000);
    fuzzy.evaluate(rs1);
    let first = fuzzy.get_output(o1);
    assert_eq!(first, CrispValue::Finite(666_666));
    assert_eq!(fuzzy.get_output(o2), CrispValue::Finite(0));

    fuzzy.set_input(i1, 250_000);
    fuzzy.evaluate(rs2);
    assert_eq!(fuzzy.get_output(o1), first);
    assert_ne!(fuzzy.get_output(o2), CrispValue::Finite(0));
}

#[test]
fn repeated_evaluation_is_identical() {
    // with unchanged inputs, evaluating again changes nothing
    let mut fuzzy = Fuzzy::new();
    let i1 = fuzzy.add_input(0, 4_000_000);
    let o1 = fuzzy.add_output(0, 1_000_000);
    let is1 = fuzzy.add_input_set(i1, MembershipFunction::rising(0, 4_000_000));
    let is2 = fuzzy.add_input_set(i1, MembershipFunction::falling(0, 4_000_000));
    let os1 = fuzzy.add_output_set(o1, MembershipFunction::rising(0, 1_000_000));
    let os2 = fuzzy.add_output_set(o1, MembershipFunction::falling(0, 1_000_000));
    let r1 = fuzzy.add_rule(&vec![is1], os1);
    let r2 = fuzzy.add_rule(&vec![is2], os2);
    let rs = fuzzy.add_rule_set(&vec![r1, r2]);

    fuzzy.set_input(i1, 1_000_000);
    fuzzy.evaluate(rs);
    let v1 = fuzzy.outputs[o1.id].value;
    let d1: Vec<i64> = fuzzy.input_sets.iter().map(|s| s.membership).collect();
    let s1: Vec<i64> = fuzzy.output_sets.iter().map(|s| s.input_membership).collect();
    fuzzy.evaluate(rs);
    let d2: Vec<i64> = fuzzy.input_sets.iter().map(|s| s.membership).collect();
    let s2: Vec<i64> = fuzzy.output_sets.iter().map(|s| s.input_membership).collect();
    assert_eq!(fuzzy.outputs[o1.id].value, v1);
    assert_eq!(d1, d2);
    assert_eq!(s1, s2);
}

#[test]
fn degenerate_all_zero_strengths_is_non_finite() {
    // when every firing strength on a touched output is zero, the
    // centroid divides by zero and the output turns non-finite
    let mut fuzzy = Fuzzy::new();
    let i1 = fuzzy.add_input(0, 1_000_000);
    let o1 = fuzzy.add_output(0, 1_000_000);
    let s1 = fuzzy.add_input_set(i1, MembershipFunction::rising(0, 1_000_000));
    let os1 = fuzzy.add_output_set(o1, MembershipFunction::rising(0, 1_000_000));
    let r1 = fuzzy.add_rule(&vec![s1], os1);
    let rs = fuzzy.add_rule_set(&vec![r1]);

    fuzzy.set_input(i1, 0);
    fuzzy.evaluate(rs);
    assert!(!fuzzy.get_output(o1).is_finite());
}

#[test]
fn empty_rule_set_changes_nothing() {
    let mut fuzzy = Fuzzy::new();
    let i1 = fuzzy.add_input(0, 1_000_000);
    let o1 = fuzzy.add_output(0, 1_000_000);
    let _s1 = fuzzy.add_input_set(i1, MembershipFunction::rising(0, 1_000_000));
    let _os1 = fuzzy.add_output_set(o1, MembershipFunction::rising(0, 1_000_000));
    let rs = fuzzy.add_rule_set(&vec![]);

    fuzzy.set_input(i1, 700_000);
    fuzzy.evaluate(rs);
    assert_eq!(fuzzy.input_sets[0].membership, 0);
    assert_eq!(fuzzy.get_output(o1), CrispValue::Finite(0));
}

#[test]
fn empty_antecedents_fire_fully() {
    // a rule without antecedents fires with full membership
    let mut fuzzy = Fuzzy::new();
    let o1 = fuzzy.add_output(0, 1_000_000);
    let os1 = fuzzy.add_output_set(o1, MembershipFunction::rising(0, 1_000_000));
    let r1 = fuzzy.add_rule(&vec![], os1);
    let rs = fuzzy.add_rule_set(&vec![r1]);

    fuzzy.evaluate(rs);
    assert_eq!(fuzzy.output_sets[0].input_membership, SCALE);
    assert_eq!(fuzzy.get_output(o1), CrispValue::Finite(666_666));
}

#[test]
fn degenerate_domain_is_non_finite() {
    // a zero-width output domain has no area under any envelope
    let mut fuzzy = Fuzzy::new();
    let o1 = fuzzy.add_output(500_000, 500_000);
    let os1 = fuzzy.add_output_set(o1, MembershipFunction::constant(SCALE));
    let r1 = fuzzy.add_rule(&vec![], os1);
    let rs = fuzzy.add_rule_set(&vec![r1]);

    fuzzy.evaluate(rs);
    assert!(!fuzzy.get_output(o1).is_finite());
}

#[test]
fn centroid_over_negative_domain() {
    // a falling envelope over [-1, 1] has its centroid left of zero
    let mut fuzzy = Fuzzy::new();
    let o1 = fuzzy.add_output(-1_000_000, 1_000_000);
    let os1 = fuzzy.add_output_set(o1, MembershipFunction::falling(-1_000_000, 1_000_000));
    let r1 = fuzzy.add_rule(&vec![], os1);
    let rs = fuzzy.add_rule_set(&vec![r1]);

    fuzzy.evaluate(rs);
    assert_eq!(fuzzy.get_output(o1), CrispValue::Finite(-333_334));
}

#[test]
fn membership_evaluation_shapes() {
    let tri = MembershipFunction::triangle(100_000, 200_000, 400_000);
    assert_eq!(tri.eval(50_000), 0);
    assert_eq!(tri.eval(100_000), 0);
    assert_eq!(tri.eval(150_000), 500_000);
    assert_eq!(tri.eval(200_000), 1_000_000);
    assert_eq!(tri.eval(300_000), 500_000);
    assert_eq!(tri.eval(400_000), 0);
    assert_eq!(tri.eval(900_000), 0);

    let trap = MembershipFunction::trapezoid(0, 100_000, 200_000, 300_000);
    assert_eq!(trap.eval(150_000), 1_000_000);
    assert_eq!(trap.eval(50_000), 500_000);
    assert_eq!(trap.eval(250_000), 500_000);

    // a step between neighbouring micro-units is exact on the grid
    let step = MembershipFunction::falling(699_999, 700_000);
    assert_eq!(step.eval(699_999), 1_000_000);
    assert_eq!(step.eval(700_000), 0);

    // interpolation rounds the fractional micro-unit down
    let slope = MembershipFunction::rising(0, 3);
    assert_eq!(slope.eval(1), 333_333);
    assert_eq!(slope.eval(2), 666_666);
}

#[test]
fn dirty_set_is_deduplicated() {
    // an input set shared by two rules is collected once
    let mut fuzzy = Fuzzy::new();
    let i1 = fuzzy.add_input(0, 1_000_000);
    let o1 = fuzzy.add_output(0, 1_000_000);
    let s1 = fuzzy.add_input_set(i1, MembershipFunction::rising(0, 1_000_000));
    let s2 = fuzzy.add_input_set(i1, MembershipFunction::falling(0, 1_000_000));
    let os1 = fuzzy.add_output_set(o1, MembershipFunction::rising(0, 1_000_000));
    let r1 = fuzzy.add_rule(&vec![s1, s2], os1);
    let r2 = fuzzy.add_rule(&vec![s2, s1], os1);
    let _rs = fuzzy.add_rule_set(&vec![r1, r2]);

    let dirty = collect_dirty_input_sets(&fuzzy.rule_sets, &fuzzy.rules, _rs);
    let mut ids: Vec<usize> = dirty.iter().map(|d| d.id).collect();
    ids.sort();
    assert_eq!(ids, vec![0, 1]);
}

