use mqtt_ac::ac_unit::{FanSpeed, OperationMode, TemperatureReading, TemperatureScale, UnitState};
use mqtt_ac::error::CoolmasterError;

/// The value of a reading in degrees Celsius, computed as the service does.
fn celsius(t: &TemperatureReading) -> f32 {
    let value: f32 = t.reading.parse().unwrap();
    match t.scale {
        TemperatureScale::Celsius => value,
        TemperatureScale::Fahrenheit => (value - 32.0) * 5.0 / 9.0,
    }
}

#[test]
fn test_parse_temperature() {
    let temperature = celsius(&UnitState::parse_temperature("25C").unwrap());
    assert_eq!(temperature, 25.0);

    let temperature = celsius(&UnitState::parse_temperature("77F").unwrap());
    assert_eq!(temperature, 25.0);

    let temperature = UnitState::parse_temperature("25X");
    assert!(temperature.is_err());
}

#[test]
fn test_parse_unit_state() {
    let state = UnitState::from_str("L4.001 OFF 19.0C 23.0C High Heat OK   - 0").unwrap();
    assert_eq!(state.unit, "L4.001");
    assert_eq!(state.power, false);
    assert_eq!(celsius(&state.target_temperature), 19.0);
    assert_eq!(celsius(&state.temperature), 23.0);
    assert_eq!(state.fan_speed, FanSpeed::High);
    assert_eq!(state.operation_mode, OperationMode::Heat);
    assert_eq!(state.failure_code, None);
    assert_eq!(state.filter_change, false);
    assert_eq!(state.demand, false);
}

#[test]
fn temperature_reading_keeps_number_and_scale() {
    let t = UnitState::parse_temperature("23.5C").unwrap();
    assert_eq!(t.reading, "23.5");
    assert_eq!(t.scale, TemperatureScale::Celsius);
    let t = UnitState::parse_temperature("-4F").unwrap();
    assert_eq!(t.reading, "-4");
    assert_eq!(t.scale, TemperatureScale::Fahrenheit);
}

#[test]
fn temperature_numbers_follow_float_grammar() {
    for ok in ["1e3C", "infC", "NaNC", "+infinityF", ".5C", "5.C", "2.5E-3C", "007C"] {
        assert!(UnitState::parse_temperature(ok).is_ok(), "{ok}");
    }
    for bad in [".C", "C", "1e C", "1eC", "e5C", "1.2.3C", "--1C", "infinC", " 1C", "1,5C"] {
        match UnitState::parse_temperature(bad) {
            Err(CoolmasterError::InvalidTemperature(t)) => assert_eq!(t, bad),
            other => panic!("{bad}: {other:?}"),
        }
    }
}

#[test]
fn fan_speed_names() {
    let all = [
        (FanSpeed::VLow, "VLow"),
        (FanSpeed::Low, "Low"),
        (FanSpeed::Medium, "Med"),
        (FanSpeed::High, "High"),
        (FanSpeed::Top, "Top"),
        (FanSpeed::Auto, "Auto"),
    ];
    for (speed, name) in all {
        assert_eq!(speed.to_string(), name);
        assert_eq!(FanSpeed::from_str(name).unwrap(), speed);
        assert_eq!(FanSpeed::from_str(&speed.to_string()).unwrap(), speed);
    }
    match FanSpeed::from_str("Medium") {
        Err(CoolmasterError::InvalidUnitState(m, s)) => {
            assert_eq!(m, "Invalid fan speed");
            assert_eq!(s, "Medium");
        }
        other => panic!("{other:?}"),
    }
}

#[test]
fn operation_mode_names() {
    assert_eq!(OperationMode::from_str("Cool").unwrap(), OperationMode::Cool);
    assert_eq!(OperationMode::from_str("Heat").unwrap(), OperationMode::Heat);
    assert_eq!(OperationMode::from_str("Dry").unwrap(), OperationMode::Dry);
    assert_eq!(OperationMode::from_str("Fan").unwrap(), OperationMode::Fan);
    assert_eq!(OperationMode::from_str("Auto").unwrap(), OperationMode::Auto);
    match OperationMode::from_str("cool") {
        Err(CoolmasterError::InvalidUnitState(m, s)) => {
            assert_eq!(m, "Invalid operation mode");
            assert_eq!(s, "cool");
        }
        other => panic!("{other:?}"),
    }
}

fn unit_state_error(line: &str) -> (&'static str, String) {
    match UnitState::from_str(line) {
        Err(CoolmasterError::InvalidUnitState(m, s)) => (m, s),
        other => panic!("{line}: {other:?}"),
    }
}

#[test]
fn unit_state_errors_name_the_check() {
    let line = "L1 ON 20C 21C Low Cool OK -";
    assert_eq!(unit_state_error(line), ("Wrong number of fields", line.to_string()));
    let line = "L1 On 20C 21C Low Cool OK - 0";
    assert_eq!(unit_state_error(line), ("Invalid power state", line.to_string()));
    let line = "L1 ON 20C 21C Slow Cool OK - 0";
    assert_eq!(unit_state_error(line), ("Invalid fan speed", "Slow".to_string()));
    let line = "L1 ON 20C 21C Low Wet OK - 0";
    assert_eq!(unit_state_error(line), ("Invalid operation mode", "Wet".to_string()));
    let line = "L1 ON 20C 21C Low Cool E5 - 0";
    assert_eq!(unit_state_error(line), ("Invalid failure code", line.to_string()));
    let line = "L1 ON 20C 21C Low Cool 65536 - 0";
    assert_eq!(unit_state_error(line), ("Invalid failure code", line.to_string()));
    let line = "L1 ON 20C 21C Low Cool OK + 0";
    assert_eq!(unit_state_error(line), ("Invalid filter change state", line.to_string()));
    let line = "L1 ON 20C 21C Low Cool OK - 2";
    assert_eq!(unit_state_error(line), ("Invalid demand state", line.to_string()));
    match UnitState::from_str("L1 ON 20K 21C Low Cool OK - 0") {
        Err(CoolmasterError::InvalidTemperature(t)) => assert_eq!(t, "20K"),
        other => panic!("{other:?}"),
    }
    // The first failing check decides.
    match UnitState::from_str("L1 ON 20C 21X Slow Wet E5 + 2") {
        Err(CoolmasterError::InvalidTemperature(t)) => assert_eq!(t, "21X"),
        other => panic!("{other:?}"),
    }
}

#[test]
fn unit_state_fields_in_full() {
    let state = UnitState::from_str("  L7.400 ON 22.5C 71.6F Auto Cool +17 # 1 ").unwrap();
    assert_eq!(state.unit, "L7.400");
    assert!(state.power);
    assert_eq!(state.target_temperature.reading, "22.5");
    assert_eq!(state.temperature.scale, TemperatureScale::Fahrenheit);
    assert_eq!(state.fan_speed, FanSpeed::Auto);
    assert_eq!(state.operation_mode, OperationMode::Cool);
    assert_eq!(state.failure_code, Some(17));
    assert!(state.filter_change);
    assert!(state.demand);
    assert_eq!(UnitState::from_str("L1 ON 20C 21C Low Cool 65535 - 0").unwrap().failure_code, Some(65535));
}

#[test]
fn unit_state_panics_where_the_unit_character_is_wide() {
    assert!(UnitState::from_str_panics("L1 ON 20° 21C Low Cool OK - 0"));
    assert!(UnitState::from_str_panics("L1 ON 20C 21° Low Cool OK - 0"));
    assert!(!UnitState::from_str_panics("L1 ON 20X 21° Low Cool OK - 0"));
    assert!(!UnitState::from_str_panics("L1 OF 20° 21C Low Cool OK - 0"));
    assert!(!UnitState::from_str_panics("L4.001 OFF 19.0C 23.0C High Heat OK   - 0"));
}

#[test]
fn extra_spaces_change_nothing() {
    let line = "L4.001 OFF 19.0C 23.0C High Heat OK - 0";
    let base = UnitState::from_str(line).unwrap();
    for spaced in [
        "   L4.001 OFF 19.0C 23.0C High Heat OK - 0",
        "L4.001 OFF 19.0C 23.0C High Heat OK - 0    ",
        "L4.001    OFF 19.0C  23.0C High Heat OK   -   0",
    ] {
        let s = UnitState::from_str(spaced).unwrap();
        assert_eq!(s.unit, base.unit);
        assert_eq!(s.power, base.power);
        assert_eq!(s.target_temperature.reading, base.target_temperature.reading);
        assert_eq!(s.temperature.reading, base.temperature.reading);
        assert_eq!(s.fan_speed, base.fan_speed);
        assert_eq!(s.operation_mode, base.operation_mode);
        assert_eq!(s.failure_code, base.failure_code);
        assert_eq!(s.filter_change, base.filter_change);
        assert_eq!(s.demand, base.demand);
    }
    assert!(UnitState::from_str("  L4.001 OFF 19.0C  23.0C High Heat OK - ").is_err());
}
