use t2fanrd::config::{FanConfig, SpeedCurve};
use t2fanrd::error::Error;
use t2fanrd::fan_controller::{
    parse_actual_speed, parse_max_speed, parse_min_speed, FanComponent, FanController, SpeedCheck, SpeedPlan,
};

fn config(curve: SpeedCurve, full: bool) -> FanConfig {
    FanConfig { low_temp: 50, high_temp: 70, speed_curve: curve, always_full_speed: full }
}

fn fan() -> FanController {
    FanController::new(config(SpeedCurve::Linear, false), 1000, 6000)
}

#[test]
fn new_fan_is_not_driven() {
    let f = fan();
    assert_eq!(f.current_speed(), None);
    assert_eq!(f.ramp_start_speed(), None);
    assert_eq!(f.min_speed(), 1000);
    assert_eq!(f.max_speed(), 6000);
    assert_eq!(f.config(), config(SpeedCurve::Linear, false));
    assert_eq!(f.ramp_delta(), None);
}

#[test]
fn requested_speed_is_clamped() {
    let f = fan();
    assert_eq!(f.speed_to_write(500), Some(1000));
    assert_eq!(f.speed_to_write(9000), Some(6000));
    assert_eq!(f.speed_to_write(3000), Some(3000));
}

#[test]
fn same_speed_is_written_once() {
    let mut f = fan();
    let s = f.speed_to_write(9000).unwrap();
    assert!(f.record_written_speed(s));
    assert_eq!(f.current_speed(), Some(6000));
    assert_eq!(f.speed_to_write(9000), None);
    assert_eq!(f.speed_to_write(6000), None);
}

#[test]
fn ramps_restart_only_on_direction_change() {
    let mut f = fan();
    // from rest: a new ramp that starts from nothing
    assert!(f.record_written_speed(2000));
    assert_eq!(f.ramp_start_speed(), None);
    // no ramp start yet: another new ramp, from 2000
    assert!(f.record_written_speed(3000));
    assert_eq!(f.ramp_start_speed(), Some(2000));
    assert_eq!(f.ramp_delta(), Some(1000));
    // still going up: same ramp
    assert!(!f.record_written_speed(4000));
    assert_eq!(f.ramp_start_speed(), Some(2000));
    assert_eq!(f.ramp_delta(), Some(2000));
    // turning down: new ramp from 4000
    assert!(f.record_written_speed(3500));
    assert_eq!(f.ramp_start_speed(), Some(4000));
    assert_eq!(f.ramp_delta(), Some(500));
    // still going down
    assert!(!f.record_written_speed(3000));
    assert_eq!(f.current_speed(), Some(3000));
}

#[test]
fn speed_plans() {
    let f = fan();
    assert_eq!(f.calc_speed(20), SpeedPlan::Fixed(1000));
    assert_eq!(f.calc_speed(50), SpeedPlan::Fixed(1000));
    assert_eq!(f.calc_speed(70), SpeedPlan::Fixed(6000));
    assert_eq!(f.calc_speed(90), SpeedPlan::Fixed(6000));
    assert_eq!(
        f.calc_speed(55),
        SpeedPlan::Curve { curve: SpeedCurve::Linear, temp_offset: 5, temp_span: 20, speed_span: 5000, min_speed: 1000 }
    );
    let full = FanController::new(config(SpeedCurve::Exponential, true), 1000, 6000);
    assert_eq!(full.calc_speed(0), SpeedPlan::Fixed(6000));
    assert_eq!(full.calc_speed(60), SpeedPlan::Fixed(6000));
}

#[test]
fn speed_checks() {
    let mut f = fan();
    assert_eq!(f.classify_speed(0, 900, false, 100), SpeedCheck::NotDriven);
    f.record_written_speed(3000);
    assert_eq!(f.classify_speed(800, 900, false, 300), SpeedCheck::Stalled);
    assert_eq!(f.classify_speed(800, 900, true, 300), SpeedCheck::Stalled);
    assert_eq!(f.classify_speed(2000, 900, true, 300), SpeedCheck::Settling);
    assert_eq!(f.classify_speed(3300, 900, false, 300), SpeedCheck::InTolerance);
    assert_eq!(f.classify_speed(2700, 900, false, 300), SpeedCheck::InTolerance);
    assert_eq!(f.classify_speed(2699, 900, false, 300), SpeedCheck::OutOfTolerance { lower: 2700, upper: 3300 });
    assert_eq!(f.classify_speed(3301, 900, false, 300), SpeedCheck::OutOfTolerance { lower: 2700, upper: 3300 });
}

#[test]
fn tolerance_band_saturates() {
    let mut f = FanController::new(config(SpeedCurve::Linear, false), 0, u32::MAX);
    f.record_written_speed(10);
    assert_eq!(f.classify_speed(0, 0, false, 100), SpeedCheck::InTolerance);
    f.record_written_speed(u32::MAX - 5);
    assert_eq!(f.classify_speed(u32::MAX, 0, false, 100), SpeedCheck::InTolerance);
    assert_eq!(f.classify_speed(0, 0, false, 100), SpeedCheck::OutOfTolerance { lower: u32::MAX - 105, upper: u32::MAX });
}

#[test]
fn parses_speeds() {
    assert_eq!(parse_min_speed("  1200\n").unwrap(), 1200);
    assert_eq!(parse_max_speed("6156\n").unwrap(), 6156);
    assert_eq!(parse_actual_speed("2000\n").unwrap(), 2000);
    assert!(matches!(parse_min_speed("x"), Err(Error::MinSpeedParse(_))));
    assert!(matches!(parse_max_speed(""), Err(Error::MaxSpeedParse(_))));
    assert!(matches!(parse_actual_speed(" 2000"), Err(Error::ActualSpeedParse(_))));
}

#[test]
fn component_paths() {
    let base = "/sys/devices/platform/applesmc.768/fan1";
    assert_eq!(FanComponent::Min.to_path(base), "/sys/devices/platform/applesmc.768/fan1_min");
    assert_eq!(FanComponent::Max.to_path(base), "/sys/devices/platform/applesmc.768/fan1_max");
    assert_eq!(FanComponent::Input.to_path(base), "/sys/devices/platform/applesmc.768/fan1_input");
    assert_eq!(FanComponent::Output.to_path(base), "/sys/devices/platform/applesmc.768/fan1_output");
    assert_eq!(FanComponent::Manual.to_path(base), "/sys/devices/platform/applesmc.768/fan1_manual");
    assert_eq!(FanComponent::Min.try_to_path("fan2").as_deref(), Some("fan2_min"));
    assert_eq!(FanComponent::Min.try_to_path("/"), None);
    assert_eq!(FanComponent::Min.try_to_path("a/.."), None);
}

#[test]
fn component_descriptions() {
    assert_eq!(FanComponent::Min.description(), "min speed");
    assert_eq!(FanComponent::Max.description(), "max speed");
    assert_eq!(FanComponent::Input.description(), "current/input speed");
    assert_eq!(FanComponent::Output.description(), "target/output speed");
    assert_eq!(FanComponent::Manual.description(), "manual control");
    assert_eq!(FanComponent::Output.suffix(), "_output");
}

#[test]
fn component_path_needs_a_file_name() {
    for base in ["", ".", "./", "/", "/.", "a/..", "..", "./.", "a/b/.."] {
        assert_eq!(FanComponent::Max.try_to_path(base), None, "{base:?}");
    }
    for base in ["a", "a/.", "a/./", "a/b//", "./a", "/a", "..a", "a/...", ".a"] {
        assert!(FanComponent::Max.try_to_path(base).is_some(), "{base:?}");
    }
    assert_eq!(FanComponent::Input.try_to_path("/sys/fan3/").as_deref(), Some("/sys/fan3_input"));
}
