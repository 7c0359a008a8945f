//! Decisions and protocol handling of a bridge between a CoolMaster
//! air-conditioning controller and an MQTT broker.
use vstd::prelude::*;

pub mod ac_unit;
pub mod coolmaster;
pub mod error;
pub mod messages;
pub mod mqtt_publisher;
pub mod mqtt_subscriber;
pub mod number;
pub mod service;
pub mod text;

verus! {

/// The version line the service announces.
pub open spec fn version_line(pkg_version: Seq<char>, built_time_utc: Seq<char>) -> Seq<char> {
    "mqtt_ac: "@ + pkg_version + " (built at "@ + built_time_utc + ")"@
}

/// The version line: the package's version and when it was built, which
/// the build hands in.
pub fn get_version(pkg_version: &str, built_time_utc: &str) -> (v: String)
    ensures
        v@ == version_line(pkg_version@, built_time_utc@),
{
    let mut v = String::new();
    text::push_text(&mut v, "mqtt_ac: ");
    text::push_text(&mut v, pkg_version);
    text::push_text(&mut v, " (built at ");
    text::push_text(&mut v, built_time_utc);
    text::push_text(&mut v, ")");
    assert(v@ =~= version_line(pkg_version@, built_time_utc@));
    v
}

} // verus!
