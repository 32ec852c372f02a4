use fuzzy_drive::car::fuzzy::CarFuzzy;
use fuzzy_drive::car::{crisp_is_high, next_car_type, speed_fraction, CarState, CarType};
use fuzzy_drive::fuzzy::{CrispValue, SCALE};

#[test]
fn threshold_at_half() {
    assert!(!crisp_is_high(CrispValue::Finite(500_000)));
    assert!(crisp_is_high(CrispValue::Finite(500_001)));
    assert!(!crisp_is_high(CrispValue::Finite(-1)));
    assert!(!crisp_is_high(CrispValue::NonFinite));
}

#[test]
fn speed_fraction_clamps_and_defaults() {
    assert_eq!(speed_fraction(CrispValue::NonFinite), 0);
    assert_eq!(speed_fraction(CrispValue::Finite(-200_000)), 0);
    assert_eq!(speed_fraction(CrispValue::Finite(350_000)), 350_000);
    assert_eq!(speed_fraction(CrispValue::Finite(1_300_000)), SCALE);
}

#[test]
fn state_machine_cycles_through_lane_change() {
    let normal = CarType::Normal(CarState::GoNormal);
    assert_eq!(next_car_type(normal, false, false), normal);
    // a firing transition signal starts the lane change, unless the
    // car is already turning back at an intersection
    assert_eq!(next_car_type(normal, true, true), normal);
    let going = next_car_type(normal, true, false);
    assert_eq!(going, CarType::Normal(CarState::GoLeftLane));
    assert_eq!(next_car_type(going, false, false), going);
    let staying = next_car_type(going, true, false);
    assert_eq!(staying, CarType::Normal(CarState::StayLeftLane));
    let back = next_car_type(staying, true, false);
    assert_eq!(back, CarType::Normal(CarState::BackToRightLane));
    assert_eq!(next_car_type(back, true, false), normal);
    // slow cars never change lanes
    assert_eq!(next_car_type(CarType::Slow, true, false), CarType::Slow);
}

#[test]
fn clear_road_drives_straight_at_speed() {
    let mut cf = CarFuzzy::new();
    // centred in the lane, green light far away, no cars around
    cf.fuzzy.set_input(cf.deviation.input, 500_000);
    cf.fuzzy.set_input(cf.distance.input, 50_000_000);
    cf.fuzzy.set_input(cf.light_status.input, 0);
    cf.fuzzy.set_input(cf.car_distance.input, 200_000_000);
    cf.fuzzy.set_input(cf.car_velocity.input, 30_000_000);
    cf.fuzzy.set_input(cf.car_opposite_distance.input, 400_000_000);
    cf.fuzzy.evaluate(cf.simple_rule_set);

    let steering = cf.fuzzy.get_output(cf.steering.output);
    assert_eq!(steering, CrispValue::Finite(500_000));
    let speed = cf.fuzzy.get_output(cf.speed.output);
    assert!(speed.is_finite());
    assert!(speed_fraction(speed) > 700_000);
}

#[test]
fn red_light_near_means_stop() {
    let mut cf = CarFuzzy::new();
    // centred, a red light one metre ahead, no cars around
    cf.fuzzy.set_input(cf.deviation.input, 500_000);
    cf.fuzzy.set_input(cf.distance.input, 1_000_000);
    cf.fuzzy.set_input(cf.light_status.input, 4_500_000);
    cf.fuzzy.set_input(cf.car_distance.input, 200_000_000);
    cf.fuzzy.set_input(cf.car_velocity.input, 30_000_000);
    cf.fuzzy.set_input(cf.car_opposite_distance.input, 400_000_000);
    cf.fuzzy.evaluate(cf.simple_rule_set);

    let speed = cf.fuzzy.get_output(cf.speed.output);
    assert!(speed.is_finite());
    assert!(speed_fraction(speed) < 200_000);
}

#[test]
fn slow_car_ahead_triggers_overtaking() {
    let mut cf = CarFuzzy::new();
    // a slow car eight metres ahead, free opposite lane
    cf.fuzzy.set_input(cf.deviation.input, 500_000);
    cf.fuzzy.set_input(cf.distance.input, 50_000_000);
    cf.fuzzy.set_input(cf.light_status.input, 0);
    cf.fuzzy.set_input(cf.car_distance.input, 8_000_000);
    cf.fuzzy.set_input(cf.car_velocity.input, 1_000_000);
    cf.fuzzy.set_input(cf.car_opposite_distance.input, 400_000_000);
    cf.fuzzy.evaluate(cf.normal_rule_set);

    let go = cf.fuzzy.get_output(cf.go_left_lane.output);
    assert!(crisp_is_high(go));
    let t = next_car_type(CarType::Normal(CarState::GoNormal), crisp_is_high(go), false);
    assert_eq!(t, CarType::Normal(CarState::GoLeftLane));
}

#[test]
fn oncoming_traffic_blocks_overtaking() {
    let mut cf = CarFuzzy::new();
    // same headway, but an oncoming car twenty metres away
    cf.fuzzy.set_input(cf.deviation.input, 500_000);
    cf.fuzzy.set_input(cf.distance.input, 50_000_000);
    cf.fuzzy.set_input(cf.light_status.input, 0);
    cf.fuzzy.set_input(cf.car_distance.input, 8_000_000);
    cf.fuzzy.set_input(cf.car_velocity.input, 1_000_000);
    cf.fuzzy.set_input(cf.car_opposite_distance.input, 20_000_000);
    cf.fuzzy.evaluate(cf.normal_rule_set);

    let go = cf.fuzzy.get_output(cf.go_left_lane.output);
    assert!(!crisp_is_high(go));
}

#[test]
fn overtaken_car_behind_sends_back_right() {
    let mut cf = CarFuzzy::new();
    // cruising the left lane; the overtaken car has fallen behind
    cf.fuzzy.set_input(cf.left_deviation.input, 500_000);
    cf.fuzzy.set_input(cf.side_deviation.input, -5_000_000);
    cf.fuzzy.set_input(cf.car_distance.input, 200_000_000);
    cf.fuzzy.evaluate(cf.stay_left_lane_rule_set);

    let back = cf.fuzzy.get_output(cf.back_to_right_lane.output);
    assert!(crisp_is_high(back));
    // steering stays straight while the signal fires
    let steering = cf.fuzzy.get_output(cf.steering.output);
    assert_eq!(steering, CrispValue::Finite(500_000));
}

#[test]
fn rule_sets_leave_unrelated_outputs_alone() {
    let mut cf = CarFuzzy::new();
    cf.fuzzy.set_input(cf.deviation.input, 500_000);
    cf.fuzzy.set_input(cf.distance.input, 50_000_000);
    cf.fuzzy.set_input(cf.light_status.input, 0);
    cf.fuzzy.set_input(cf.car_distance.input, 200_000_000);
    cf.fuzzy.set_input(cf.car_velocity.input, 30_000_000);
    cf.fuzzy.set_input(cf.car_opposite_distance.input, 400_000_000);
    cf.fuzzy.evaluate(cf.normal_rule_set);
    let go_before = cf.fuzzy.get_output(cf.go_left_lane.output);

    // the go-left rule set never touches the go-left-lane output, so
    // its value carries over from the normal evaluation
    cf.fuzzy.set_input(cf.road_deviation.input, 500_000);
    cf.fuzzy.evaluate(cf.go_left_lane_rule_set);
    assert_eq!(cf.fuzzy.get_output(cf.go_left_lane.output), go_before);
}
