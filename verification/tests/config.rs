use t2fanrd::config::{FanConfig, FanConfigFile, FanSection, SpeedCurve, TEMP_RANGE_MESSAGE};
use t2fanrd::error::ConfigError;

const FULL: &str = "[Fan1]\nlow_temp=50\nhigh_temp=70\nspeed_curve=exponential\nalways_full_speed=false\nspeed_tolerance_percent=10\nsettling_time_factor=5\n\n[Fan2]\nlow_temp=40\nhigh_temp=90\nspeed_curve=logarithmic\nalways_full_speed=true\nspeed_tolerance_percent=2.5\n";

fn section_of(body: &str) -> Result<FanSection, ConfigError> {
    let text = format!("[Fan1]\n{body}");
    FanConfigFile::parse(&text).unwrap().fan_section(1)
}

#[test]
fn speed_curve_names_round_trip() {
    for c in [SpeedCurve::Linear, SpeedCurve::Exponential, SpeedCurve::Logarithmic] {
        assert_eq!(SpeedCurve::parse(c.name()), Ok(c));
        assert_eq!(c.name().parse::<SpeedCurve>(), Ok(c));
    }
    assert_eq!(SpeedCurve::Linear.name(), "linear");
    assert_eq!(SpeedCurve::Exponential.name(), "exponential");
    assert_eq!(SpeedCurve::Logarithmic.name(), "logarithmic");
}

#[test]
fn speed_curve_rejects_other_names() {
    assert_eq!(SpeedCurve::parse("Linear"), Err(()));
    assert_eq!(SpeedCurve::parse(" linear"), Err(()));
    assert_eq!(SpeedCurve::parse(""), Err(()));
    assert_eq!(SpeedCurve::parse("cubic"), Err(()));
}

#[test]
fn default_config() {
    let d = FanConfig::default();
    assert_eq!(d.low_temp, 55);
    assert_eq!(d.high_temp, 75);
    assert_eq!(d.speed_curve, SpeedCurve::Linear);
    assert!(!d.always_full_speed);
    assert_eq!(d.validated().unwrap(), d);
}

#[test]
fn validated_needs_low_below_high() {
    let mut c = FanConfig::default();
    c.low_temp = 75;
    match c.validated() {
        Err(ConfigError::InvalidRange(msg)) => assert_eq!(msg, TEMP_RANGE_MESSAGE),
        other => panic!("unexpected {other:?}"),
    }
    c.low_temp = 80;
    assert!(matches!(c.validated(), Err(ConfigError::InvalidRange(_))));
    c.low_temp = 74;
    assert!(c.validated().is_ok());
}

#[test]
fn section_titles() {
    assert_eq!(FanConfigFile::section_title(1), "Fan1");
    assert_eq!(FanConfigFile::section_title(12), "Fan12");
    assert_eq!(FanConfigFile::section_title(0), "Fan0");
}

#[test]
fn reads_full_sections() {
    let file = FanConfigFile::parse(FULL).unwrap();
    let s1 = file.fan_section(1).unwrap();
    assert_eq!(
        s1.config,
        FanConfig { low_temp: 50, high_temp: 70, speed_curve: SpeedCurve::Exponential, always_full_speed: false }
    );
    assert_eq!(s1.speed_tolerance_percent, "10");
    assert_eq!(s1.settling_time_factor.as_deref(), Some("5"));
    let s2 = file.fan_section(2).unwrap();
    assert_eq!(
        s2.config,
        FanConfig { low_temp: 40, high_temp: 90, speed_curve: SpeedCurve::Logarithmic, always_full_speed: true }
    );
    assert_eq!(s2.speed_tolerance_percent, "2.5");
    assert_eq!(s2.settling_time_factor, None);
}

#[test]
fn missing_fan_section() {
    let file = FanConfigFile::parse(FULL).unwrap();
    assert!(matches!(file.fan_section(3), Err(ConfigError::MissingFan(3))));
    assert!(matches!(file.fan_section(0), Err(ConfigError::MissingFan(0))));
}

#[test]
fn unparsable_file() {
    assert!(matches!(FanConfigFile::parse("[Fan1\nlow_temp=1\n"), Err(ConfigError::Parse(_))));
}

#[test]
fn missing_values_in_key_order() {
    assert!(matches!(section_of(""), Err(ConfigError::MissingValue("low_temp"))));
    assert!(matches!(section_of("low_temp=1\n"), Err(ConfigError::MissingValue("high_temp"))));
    assert!(matches!(section_of("low_temp=1\nhigh_temp=2\n"), Err(ConfigError::MissingValue("speed_curve"))));
    assert!(matches!(
        section_of("low_temp=1\nhigh_temp=2\nspeed_curve=linear\n"),
        Err(ConfigError::MissingValue("always_full_speed"))
    ));
    assert!(matches!(
        section_of("low_temp=1\nhigh_temp=2\nspeed_curve=linear\nalways_full_speed=true\n"),
        Err(ConfigError::MissingValue("speed_tolerance_percent"))
    ));
}

#[test]
fn invalid_values() {
    assert!(matches!(section_of("low_temp=256\nhigh_temp=2\n"), Err(ConfigError::InvalidValue("low_temp"))));
    assert!(matches!(section_of("low_temp=-1\n"), Err(ConfigError::InvalidValue("low_temp"))));
    assert!(matches!(section_of("low_temp=1\nhigh_temp=x\n"), Err(ConfigError::InvalidValue("high_temp"))));
    assert!(matches!(
        section_of("low_temp=1\nhigh_temp=2\nspeed_curve=cubic\n"),
        Err(ConfigError::InvalidValue("speed_curve"))
    ));
    assert!(matches!(
        section_of("low_temp=1\nhigh_temp=2\nspeed_curve=linear\nalways_full_speed=yes\n"),
        Err(ConfigError::InvalidValue("always_full_speed"))
    ));
}

#[test]
fn invalid_value_before_later_missing_value() {
    // an invalid low_temp is reported although high_temp is missing too
    assert!(matches!(section_of("low_temp=abc\n"), Err(ConfigError::InvalidValue("low_temp"))));
}

#[test]
fn plus_sign_and_range_limits() {
    let s = section_of("low_temp=+0\nhigh_temp=255\nspeed_curve=linear\nalways_full_speed=false\nspeed_tolerance_percent=x\n")
        .unwrap();
    assert_eq!(s.config.low_temp, 0);
    assert_eq!(s.config.high_temp, 255);
    assert_eq!(s.speed_tolerance_percent, "x");
}

#[test]
fn read_section_from_properties() {
    let mut props = ini::Properties::new();
    props.insert("low_temp", "10");
    props.insert("high_temp", "20");
    props.insert("speed_curve", "linear");
    props.insert("always_full_speed", "false");
    props.insert("speed_tolerance_percent", "1");
    props.insert("settling_time_factor", "2");
    let s = FanSection::read(&props).unwrap();
    assert_eq!(s.config.low_temp, 10);
    assert_eq!(s.settling_time_factor.as_deref(), Some("2"));
}

#[test]
fn written_config_reads_back() {
    let mut file = FanConfigFile::new();
    let c = FanConfig { low_temp: 7, high_temp: 255, speed_curve: SpeedCurve::Logarithmic, always_full_speed: true };
    c.write_property(&mut file, &FanConfigFile::section_title(1));
    file.set("Fan1", "speed_tolerance_percent", "10");
    file.set("Fan1", "settling_time_factor", "5");
    let s = file.fan_section(1).unwrap();
    assert_eq!(s.config, c);
    assert_eq!(s.speed_tolerance_percent, "10");
    assert_eq!(s.settling_time_factor.as_deref(), Some("5"));
    assert!(matches!(file.fan_section(2), Err(ConfigError::MissingFan(2))));
}

#[test]
fn generated_text_reparses() {
    let mut file = FanConfigFile::new();
    for i in 1..=2 {
        let title = FanConfigFile::section_title(i);
        FanConfig::default().write_property(&mut file, &title);
        file.set(&title, "speed_tolerance_percent", "10");
        file.set(&title, "settling_time_factor", "5");
    }
    let mut out = Vec::new();
    file.document().write_to(&mut out).unwrap();
    let text = String::from_utf8(out).unwrap();
    assert_eq!(
        text,
        "[Fan1]\nlow_temp=55\nhigh_temp=75\nspeed_curve=linear\nalways_full_speed=false\nspeed_tolerance_percent=10\nsettling_time_factor=5\n\n[Fan2]\nlow_temp=55\nhigh_temp=75\nspeed_curve=linear\nalways_full_speed=false\nspeed_tolerance_percent=10\nsettling_time_factor=5\n"
    );
    let again = FanConfigFile::parse(&text).unwrap();
    assert_eq!(again.fan_section(2).unwrap().config, FanConfig::default());
}

#[test]
fn set_replaces_value() {
    let mut file = FanConfigFile::new();
    file.set("Fan1", "low_temp", "1");
    file.set("Fan1", "low_temp", "2");
    file.set("Fan1", "high_temp", "3");
    assert!(matches!(file.fan_section(1), Err(ConfigError::MissingValue("speed_curve"))));
    file.set("Fan1", "speed_curve", "linear");
    file.set("Fan1", "always_full_speed", "true");
    file.set("Fan1", "speed_tolerance_percent", "1");
    let s = file.fan_section(1).unwrap();
    assert_eq!(s.config.low_temp, 2);
    assert_eq!(s.config.high_temp, 3);
    assert!(s.config.always_full_speed);
}
