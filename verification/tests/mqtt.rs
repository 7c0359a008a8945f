use mqtt_ac::ac_unit::{FanSpeed, OperationMode};
use mqtt_ac::messages::ToCoolmasterMessage;
use mqtt_ac::mqtt_publisher::{f32_bits_equal, MqttPublisher, UnitReport};
use mqtt_ac::mqtt_subscriber::{command_messages, get_coolmaster_message_from_action, Action, Command, Operation};
use mqtt_ac::service::mqtt_session_settings;

fn report(unit: &str, temperature: f32) -> UnitReport {
    UnitReport {
        unit: unit.to_string(),
        power: true,
        target_temperature: 21.0f32.to_bits(),
        temperature: temperature.to_bits(),
        fan_speed: FanSpeed::Low,
        operation_mode: OperationMode::Cool,
        failure_code: None,
        filter_change: false,
        demand: true,
    }
}

#[test]
fn publishes_only_changed_states() {
    let mut publisher = MqttPublisher::new("house".to_string());
    assert!(publisher.publish_if_modified(report("L1", 22.0)));
    assert!(!publisher.publish_if_modified(report("L1", 22.0)));
    assert!(publisher.publish_if_modified(report("L2", 22.0)));
    assert!(publisher.publish_if_modified(report("L1", 22.5)));
    assert!(!publisher.publish_if_modified(report("L1", 22.5)));
    assert!(!publisher.publish_if_modified(report("L2", 22.0)));
    // The two zeros are equal temperatures.
    assert!(publisher.publish_if_modified(report("L3", 0.0)));
    assert!(!publisher.publish_if_modified(report("L3", -0.0)));
    // A NaN equals nothing, so it is published every time.
    assert!(publisher.publish_if_modified(report("L4", f32::NAN)));
    assert!(publisher.publish_if_modified(report("L4", f32::NAN)));
}

#[test]
fn float_equality_on_bits() {
    assert!(f32_bits_equal(1.5f32.to_bits(), 1.5f32.to_bits()));
    assert!(!f32_bits_equal(1.5f32.to_bits(), 2.5f32.to_bits()));
    assert!(f32_bits_equal(0.0f32.to_bits(), (-0.0f32).to_bits()));
    assert!(!f32_bits_equal(f32::NAN.to_bits(), f32::NAN.to_bits()));
    assert!(f32_bits_equal(f32::INFINITY.to_bits(), f32::INFINITY.to_bits()));
}

#[test]
fn publication_topics_and_payloads() {
    let publisher = MqttPublisher::new("house".to_string());
    let p = publisher.connected_publication(true);
    assert_eq!(p.topic, "Aircondition/Coolmaster/house");
    assert_eq!(p.payload, b"true");
    let p = publisher.connected_publication(false);
    assert_eq!(p.payload, b"false");
    let p = publisher.error_publication("bad \"thing\"");
    assert_eq!(p.topic, "Aircondition/Error/house");
    assert_eq!(p.payload, br#""bad \"thing\"""#.to_vec());
    assert_eq!(publisher.state_topic("L1"), "Aircondition/State/house/L1");
}

#[test]
fn actions_become_requests() {
    let m = get_coolmaster_message_from_action("L1", &Action::SetPower { power: true });
    assert!(matches!(m, ToCoolmasterMessage::SetUnitPower(ref u, true) if u == "L1"));
    let m = get_coolmaster_message_from_action("L1", &Action::TargetTemperature { temperature: "21.5".to_string() });
    assert!(matches!(m, ToCoolmasterMessage::SetTargetTemperature(ref u, ref t) if u == "L1" && t == "21.5"));
    let m = get_coolmaster_message_from_action("L1", &Action::SetMode { mode: OperationMode::Dry });
    assert!(matches!(m, ToCoolmasterMessage::SetUnitMode(ref u, OperationMode::Dry) if u == "L1"));
    let m = get_coolmaster_message_from_action("L1", &Action::SetFanSpeed { fan_speed: FanSpeed::Top });
    assert!(matches!(m, ToCoolmasterMessage::SetFanSpeed(ref u, FanSpeed::Top) if u == "L1"));
    let m = get_coolmaster_message_from_action("L1", &Action::ResetFilter);
    assert!(matches!(m, ToCoolmasterMessage::ResetFilter(ref u) if u == "L1"));
}

#[test]
fn commands_end_with_a_state_request() {
    let single = Command { unit: "L2".to_string(), operation: Operation::Action(Action::ResetFilter) };
    let ms = command_messages(&single);
    assert_eq!(ms.len(), 2);
    assert!(matches!(ms[0], ToCoolmasterMessage::ResetFilter(ref u) if u == "L2"));
    assert!(matches!(ms[1], ToCoolmasterMessage::PublishUnitState(ref u) if u == "L2"));

    let list = Command {
        unit: "L3".to_string(),
        operation: Operation::ActionList(vec![
            Action::SetPower { power: false },
            Action::SetFanSpeed { fan_speed: FanSpeed::Auto },
        ]),
    };
    let ms = command_messages(&list);
    assert_eq!(ms.len(), 3);
    assert!(matches!(ms[0], ToCoolmasterMessage::SetUnitPower(ref u, false) if u == "L3"));
    assert!(matches!(ms[1], ToCoolmasterMessage::SetFanSpeed(ref u, FanSpeed::Auto) if u == "L3"));
    assert!(matches!(ms[2], ToCoolmasterMessage::PublishUnitState(ref u) if u == "L3"));

    let empty = Command { unit: "L4".to_string(), operation: Operation::ActionList(vec![]) };
    let ms = command_messages(&empty);
    assert_eq!(ms.len(), 1);
}

#[test]
fn session_settings() {
    let s = mqtt_session_settings("broker.local", "house", "mqtt_ac: 1.0");
    assert_eq!(s.client_id, "Aircondition-house");
    assert_eq!(s.broker, "broker.local");
    assert_eq!(s.port, 1883);
    assert_eq!(s.keep_alive_secs, 5);
    assert_eq!(s.active_topic, "Aircondition/Active/house");
    assert_eq!(s.last_will_payload, "false");
    assert_eq!(s.active_payload, "true");
    assert_eq!(s.version_topic, "Aircondition/Version/house");
    assert_eq!(s.version_payload, "mqtt_ac: 1.0");
    assert_eq!(s.command_topic, "Aircondition/Command/house");
    assert_eq!(s.request_capacity, 10);
}

#[test]
fn version_line() {
    assert_eq!(mqtt_ac::get_version("0.3.1", "Mon, 1 Jan 2024"), "mqtt_ac: 0.3.1 (built at Mon, 1 Jan 2024)");
}

#[test]
fn error_payload_escapes_as_serde_json_does() {
    let publisher = MqttPublisher::new("house".to_string());
    let message = "a\"b\\c\u{8}\t\n\u{c}\r\u{1}\u{1f} é€/\u{7f}";
    let p = publisher.error_publication(message);
    assert_eq!(p.payload, serde_json::to_vec(message).unwrap());
    assert_eq!(
        String::from_utf8(p.payload).unwrap(),
        "\"a\\\"b\\\\c\\b\\t\\n\\f\\r\\u0001\\u001f é€/\u{7f}\""
    );
}
