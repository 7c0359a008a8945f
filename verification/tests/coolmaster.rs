use mqtt_ac::ac_unit::{FanSpeed, OperationMode};
use mqtt_ac::coolmaster::{Coolmaster, WorkerAction, WorkerEvent, WorkerState};
use mqtt_ac::error::CoolmasterError;
use mqtt_ac::messages::{ToCoolmasterMessage, ToMqttPublisherMessage};

#[test]
fn test_split_host_port() {
    let (host, port) = Coolmaster::split_host_port("10.0.1.70").unwrap();
    assert_eq!(host, "10.0.1.70");
    assert_eq!(port, 10102);

    let (host, port) = Coolmaster::split_host_port("10.0.1.70:7777").unwrap();
    assert_eq!(host, "10.0.1.70");
    assert_eq!(port, 7777);
}

#[test]
fn split_host_port_rejects_bad_ports() {
    for bad in ["host:", "host:port", "host:70000", "host:-1"] {
        match Coolmaster::split_host_port(bad) {
            Err(CoolmasterError::InvalidCoolmasterPort(s)) => assert_eq!(s, bad),
            other => panic!("{bad}: {other:?}"),
        }
    }
    // Only the piece after the first colon is read as the port.
    let (host, port) = Coolmaster::split_host_port("a:+80:9").unwrap();
    assert_eq!((host.as_str(), port), ("a", 80));
    let (host, port) = Coolmaster::split_host_port(":1").unwrap();
    assert_eq!((host.as_str(), port), ("", 1));
}

#[test]
fn command_texts() {
    let unit = || "L7.400".to_string();
    let cases = [
        (ToCoolmasterMessage::SetUnitPower(unit(), true), "on L7.400"),
        (ToCoolmasterMessage::SetUnitPower(unit(), false), "off L7.400"),
        (ToCoolmasterMessage::SetUnitMode(unit(), OperationMode::Cool), "cool L7.400"),
        (ToCoolmasterMessage::SetUnitMode(unit(), OperationMode::Heat), "heat L7.400"),
        (ToCoolmasterMessage::SetUnitMode(unit(), OperationMode::Dry), "dry L7.400"),
        (ToCoolmasterMessage::SetUnitMode(unit(), OperationMode::Fan), "fan L7.400"),
        (ToCoolmasterMessage::SetUnitMode(unit(), OperationMode::Auto), "auto L7.400"),
        (ToCoolmasterMessage::SetFanSpeed(unit(), FanSpeed::VLow), "fspeed L7.400 v"),
        (ToCoolmasterMessage::SetFanSpeed(unit(), FanSpeed::Low), "fspeed L7.400 l"),
        (ToCoolmasterMessage::SetFanSpeed(unit(), FanSpeed::Medium), "fspeed L7.400 m"),
        (ToCoolmasterMessage::SetFanSpeed(unit(), FanSpeed::High), "fspeed L7.400 h"),
        (ToCoolmasterMessage::SetFanSpeed(unit(), FanSpeed::Top), "fspeed L7.400 t"),
        (ToCoolmasterMessage::SetFanSpeed(unit(), FanSpeed::Auto), "fspeed L7.400 a"),
        (ToCoolmasterMessage::SetTargetTemperature(unit(), 21.5f32.to_string()), "temp L7.400 21.5"),
        (ToCoolmasterMessage::ResetFilter(unit()), "filt L7.400"),
        (ToCoolmasterMessage::PublishUnitState(unit()), "ls2 L7.400"),
        (ToCoolmasterMessage::PublishUnitsState, "ls2"),
    ];
    for (message, text) in cases {
        assert_eq!(Coolmaster::command_text(&message), text);
    }
}

#[test]
fn framing_adds_one_carriage_return() {
    assert_eq!(Coolmaster::frame_command("ls2"), "ls2\r");
    assert_eq!(Coolmaster::frame_command("ls2\r"), "ls2\r");
    assert_eq!(Coolmaster::frame_command("ls2\n"), "ls2\n");
    assert_eq!(Coolmaster::frame_command(""), "\r");
    let once = Coolmaster::frame_command("on L1");
    assert_eq!(Coolmaster::frame_command(&once), once);
}

#[test]
fn reply_status_decides() {
    assert_eq!(Coolmaster::parse_reply("\r\nOK\r\n").unwrap(), "");
    assert_eq!(Coolmaster::parse_reply("OK").unwrap(), "");
    assert_eq!(Coolmaster::parse_reply("ERROR: 0").unwrap(), "");
    assert_eq!(
        Coolmaster::parse_reply("ls2\r\nL1 ON 20C 21C Low Cool OK - 0\r\nL2 OFF 20C 21C Low Cool OK - 0\r\nOK\r\n").unwrap(),
        "ls2\r\nL1 ON 20C 21C Low Cool OK - 0\r\nL2 OFF 20C 21C Low Cool OK - 0"
    );
    match Coolmaster::parse_reply("abracadabra\r\nUnknown command\r\n") {
        Err(CoolmasterError::CoolmasterCommandError(s)) => assert_eq!(s, "Unknown command"),
        other => panic!("{other:?}"),
    }
    match Coolmaster::parse_status("body", "ERROR: 3") {
        Err(CoolmasterError::CoolmasterCommandError(s)) => assert_eq!(s, "ERROR: 3"),
        other => panic!("{other:?}"),
    }
    assert_eq!(Coolmaster::parse_status("body", "OK").unwrap(), "body");
}

#[test]
fn reply_from_bytes_drops_prompt() {
    let reply = Coolmaster::reply_from_bytes(b"\r\nOK\r\n>".to_vec()).unwrap();
    assert!(reply.is_empty());
    let reply = Coolmaster::reply_from_bytes(b"body\r\nOK\r\n>".to_vec()).unwrap();
    assert_eq!(reply, "body");
    match Coolmaster::reply_from_bytes(vec![0xff, b'O', b'K', b'>']) {
        Err(CoolmasterError::InvalidReply(_)) => {}
        other => panic!("{other:?}"),
    }
    match Coolmaster::reply_from_bytes(b"oops\r\nERROR: 2>".to_vec()) {
        Err(CoolmasterError::CoolmasterCommandError(s)) => assert_eq!(s, "ERROR: 2"),
        other => panic!("{other:?}"),
    }
}

#[test]
fn reply_messages() {
    let one = ToCoolmasterMessage::PublishUnitState("L1".to_string());
    let body = "L1 ON 20C 21C Low Cool OK - 0";
    assert!(!Coolmaster::reply_message_panics(&one, body));
    match Coolmaster::reply_message(&one, body).unwrap() {
        Some(ToMqttPublisherMessage::UnitState(s)) => assert_eq!(s.unit, "L1"),
        other => panic!("{other:?}"),
    }
    let all = ToCoolmasterMessage::PublishUnitsState;
    let body = "L1 ON 20C 21C Low Cool OK - 0\r\nL2 OFF 19C 20C High Heat 3 # 1\n";
    match Coolmaster::reply_message(&all, body).unwrap() {
        Some(ToMqttPublisherMessage::UnitsState(v)) => {
            assert_eq!(v.len(), 2);
            assert_eq!(v[0].unit, "L1");
            assert_eq!(v[1].unit, "L2");
            assert_eq!(v[1].failure_code, Some(3));
        }
        other => panic!("{other:?}"),
    }
    assert!(Coolmaster::reply_message(&all, "").unwrap().is_some());
    match Coolmaster::reply_message(&all, "L1 ON 20C 21C Low Cool OK - 0\nbad line") {
        Err(CoolmasterError::InvalidUnitState(m, s)) => {
            assert_eq!(m, "Wrong number of fields");
            assert_eq!(s, "bad line");
        }
        other => panic!("{other:?}"),
    }
    let set = ToCoolmasterMessage::SetUnitPower("L1".to_string(), true);
    assert!(Coolmaster::reply_message(&set, "anything").unwrap().is_none());
    assert!(Coolmaster::reply_message_panics(&all, "L1 ON 20C 21C Low Cool OK - 0\nL2 ON 20° 21C Low Cool OK - 0"));
    assert!(!Coolmaster::reply_message_panics(&all, "bad\nL2 ON 20° 21C Low Cool OK - 0"));
}

#[test]
fn units_state_one_per_line() {
    let states = Coolmaster::units_state("L1 ON 20C 21C Low Cool OK - 0\r\nL2 ON 20C 21C Low Cool OK - 0").unwrap();
    assert_eq!(states.len(), 2);
}

#[test]
fn worker_reconnects_unless_the_controller_refused() {
    let mut worker = Coolmaster::new();
    assert_eq!(worker.state, WorkerState::Disconnected);
    assert_eq!(worker.step(WorkerEvent::Start), vec![WorkerAction::PublishConnected(false)]);
    assert_eq!(worker.state, WorkerState::Connecting);
    assert_eq!(
        worker.step(WorkerEvent::ConnectFailed),
        vec![WorkerAction::PublishError, WorkerAction::Wait(5)]
    );
    assert_eq!(worker.state, WorkerState::Connecting);
    assert_eq!(worker.step(WorkerEvent::ConnectSucceeded), vec![WorkerAction::PublishConnected(true)]);
    assert_eq!(worker.state, WorkerState::Connected);
    assert!(worker.step(WorkerEvent::MessageHandled).is_empty());
    assert!(worker.step(WorkerEvent::ReceiveFailed).is_empty());
    assert_eq!(
        worker.step(WorkerEvent::MessageFailed { command_error: true }),
        vec![WorkerAction::PublishError]
    );
    assert_eq!(worker.state, WorkerState::Connected);
    assert_eq!(
        worker.step(WorkerEvent::MessageFailed { command_error: false }),
        vec![
            WorkerAction::PublishError,
            WorkerAction::DropConnection,
            WorkerAction::PublishConnected(false)
        ]
    );
    assert_eq!(worker.state, WorkerState::Connecting);
    // An event that does not fit the state changes nothing.
    assert!(worker.step(WorkerEvent::MessageHandled).is_empty());
    assert_eq!(worker.state, WorkerState::Connecting);
}

#[test]
fn command_errors_are_recognised() {
    assert!(CoolmasterError::CoolmasterCommandError("ERROR: 3".to_string()).is_command_error());
    assert!(!CoolmasterError::NotConnected.is_command_error());
    assert!(!CoolmasterError::InvalidTemperature("x".to_string()).is_command_error());
}

#[test]
fn host_and_decimal_port_round_trip() {
    for host in ["10.0.1.70", "coolmaster.local", ""] {
        for port in [0u16, 1, 80, 10102, 65535] {
            let (h, p) = Coolmaster::split_host_port(&format!("{}:{}", host, port)).unwrap();
            assert_eq!((h.as_str(), p), (host, port));
        }
    }
    let (h, p) = Coolmaster::split_host_port("coolmaster.local").unwrap();
    assert_eq!((h.as_str(), p), ("coolmaster.local", 10102));
}
