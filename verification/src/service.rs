//! The settings of the service's MQTT session.
use vstd::prelude::*;

use crate::text::{owned, push_text};

verus! {

/// Marks a service whose workers run.
pub struct Started {}

/// Marks a service whose workers do not run.
pub struct Stopped {}

/// The MQTT broker's port.
pub const MQTT_PORT: u16 = 1883;

/// Keep-alive interval of the MQTT session, in seconds.
pub const KEEP_ALIVE_SECS: u64 = 5;

/// Capacity of the MQTT client's request queue, and of the channels
/// between the workers.
pub const CHANNEL_CAPACITY: usize = 10;

/// Seconds to wait before an ended MQTT session is started again.
pub const MQTT_RESTART_DELAY_SECS: u64 = 10;

/// How the MQTT session is opened: who it is, the last will that says the
/// service went away, and the topics it announces itself on and listens to.
pub struct MqttSessionSettings {
    pub client_id: String,
    pub broker: String,
    pub port: u16,
    pub keep_alive_secs: u64,
    /// The topic that tells whether the service is active: its last will
    /// publishes `false` there, and it publishes `true` once connected.
    pub active_topic: String,
    pub last_will_payload: String,
    pub active_payload: String,
    pub version_topic: String,
    pub version_payload: String,
    pub command_topic: String,
    pub request_capacity: usize,
}

pub open spec fn client_id_spec(controller: Seq<char>) -> Seq<char> {
    "Aircondition-"@ + controller
}

pub open spec fn active_topic_spec(controller: Seq<char>) -> Seq<char> {
    "Aircondition/Active/"@ + controller
}

pub open spec fn version_topic_spec(controller: Seq<char>) -> Seq<char> {
    "Aircondition/Version/"@ + controller
}

pub open spec fn command_topic_spec(controller: Seq<char>) -> Seq<char> {
    "Aircondition/Command/"@ + controller
}

fn prefixed(prefix: &str, name: &str) -> (s: String)
    ensures
        s@ == prefix@ + name@,
{
    let mut s = String::new();
    push_text(&mut s, prefix);
    push_text(&mut s, name);
    assert(s@ =~= prefix@ + name@);
    s
}

/// The settings of the session with the broker at `mqtt_broker` for the
/// controller `controller_name`, announcing `version`.
pub fn mqtt_session_settings(mqtt_broker: &str, controller_name: &str, version: &str) -> (s:
    MqttSessionSettings)
    ensures
        s.client_id@ == client_id_spec(controller_name@),
        s.broker@ == mqtt_broker@,
        s.port == MQTT_PORT,
        s.keep_alive_secs == KEEP_ALIVE_SECS,
        s.active_topic@ == active_topic_spec(controller_name@),
        s.last_will_payload@ == "false"@,
        s.active_payload@ == "true"@,
        s.version_topic@ == version_topic_spec(controller_name@),
        s.version_payload@ == version@,
        s.command_topic@ == command_topic_spec(controller_name@),
        s.request_capacity == CHANNEL_CAPACITY,
{
    MqttSessionSettings {
        client_id: prefixed("Aircondition-", controller_name),
        broker: owned(mqtt_broker),
        port: MQTT_PORT,
        keep_alive_secs: KEEP_ALIVE_SECS,
        active_topic: prefixed("Aircondition/Active/", controller_name),
        last_will_payload: owned("false"),
        active_payload: owned("true"),
        version_topic: prefixed("Aircondition/Version/", controller_name),
        version_payload: owned(version),
        command_topic: prefixed("Aircondition/Command/", controller_name),
        request_capacity: CHANNEL_CAPACITY,
    }
}

} // verus!
