//! What the MQTT publisher publishes, and when: a unit's state only when it
//! differs from the state last published for that unit.
use vstd::prelude::*;

use crate::ac_unit::{FanSpeed, OperationMode};
use crate::text::push_text;
use vstd::utf8::encode_utf8;

verus! {

/// The error that `serde_json` serialisation reports.
#[verifier::external_type_specification]
#[verifier::external_body]
pub struct ExJsonError(serde_json::Error);

/// A unit's state as it is published. The temperatures are the bit
/// patterns (`f32::to_bits`) of the values in degrees Celsius.
#[derive(Debug, Clone)]
pub struct UnitReport {
    pub unit: String,
    pub power: bool,
    pub target_temperature: u32,
    pub temperature: u32,
    pub fan_speed: FanSpeed,
    pub operation_mode: OperationMode,
    pub failure_code: Option<u16>,
    pub filter_change: bool,
    pub demand: bool,
}

pub struct UnitReportView {
    pub unit: Seq<char>,
    pub power: bool,
    pub target_temperature: u32,
    pub temperature: u32,
    pub fan_speed: FanSpeed,
    pub operation_mode: OperationMode,
    pub failure_code: Option<u16>,
    pub filter_change: bool,
    pub demand: bool,
}

impl View for UnitReport {
    type V = UnitReportView;

    open spec fn view(&self) -> UnitReportView {
        UnitReportView {
            unit: self.unit@,
            power: self.power,
            target_temperature: self.target_temperature,
            temperature: self.temperature,
            fan_speed: self.fan_speed,
            operation_mode: self.operation_mode,
            failure_code: self.failure_code,
            filter_change: self.filter_change,
            demand: self.demand,
        }
    }
}

/// Whether the bits are those of a NaN.
pub open spec fn f32_bits_nan(b: u32) -> bool {
    (b & 0x7f80_0000u32) == 0x7f80_0000u32 && (b & 0x007f_ffffu32) != 0
}

/// `==` on the `f32` values with these bits: no NaN equals anything, and
/// the two zeros are equal.
pub open spec fn f32_bits_eq(a: u32, b: u32) -> bool {
    !f32_bits_nan(a) && !f32_bits_nan(b) && (a == b || ((a | b) & 0x7fff_ffffu32) == 0)
}

/// `==` on two states, field by field.
pub open spec fn same_report(a: UnitReportView, b: UnitReportView) -> bool {
    &&& a.unit == b.unit
    &&& a.power == b.power
    &&& f32_bits_eq(a.target_temperature, b.target_temperature)
    &&& f32_bits_eq(a.temperature, b.temperature)
    &&& a.fan_speed == b.fan_speed
    &&& a.operation_mode == b.operation_mode
    &&& a.failure_code == b.failure_code
    &&& a.filter_change == b.filter_change
    &&& a.demand == b.demand
}

/// Whether a state is published: when none was published for its unit, or
/// the last one differs from it.
pub open spec fn should_publish(last: Map<Seq<char>, UnitReportView>, r: UnitReportView) -> bool {
    !(last.contains_key(r.unit) && same_report(last[r.unit], r))
}

/// The states last published, by unit, after a state was offered.
pub open spec fn after_offer(last: Map<Seq<char>, UnitReportView>, r: UnitReportView) -> Map<
    Seq<char>,
    UnitReportView,
> {
    if should_publish(last, r) {
        last.insert(r.unit, r)
    } else {
        last
    }
}

/// No two entries are for the same unit.
pub open spec fn units_distinct(v: Seq<UnitReportView>) -> bool {
    forall|i: int, j: int| 0 <= i < v.len() && 0 <= j < v.len() && i != j ==> v[i].unit != v[j].unit
}

/// The entries as a map from unit to state.
pub open spec fn as_map(v: Seq<UnitReportView>) -> Map<Seq<char>, UnitReportView> {
    Map::new(
        |u: Seq<char>| exists|i: int| 0 <= i < v.len() && v[i].unit == u,
        |u: Seq<char>| v[choose|i: int| 0 <= i < v.len() && v[i].unit == u],
    )
}

/// The topic of a unit's state.
pub open spec fn state_topic_spec(controller: Seq<char>, unit: Seq<char>) -> Seq<char> {
    "Aircondition/State/"@ + controller + "/"@ + unit
}

/// The topic of the errors.
pub open spec fn error_topic_spec(controller: Seq<char>) -> Seq<char> {
    "Aircondition/Error/"@ + controller
}

/// The topic that tells whether the controller is connected.
pub open spec fn connected_topic_spec(controller: Seq<char>) -> Seq<char> {
    "Aircondition/Coolmaster/"@ + controller
}

/// The lower-case hexadecimal digit of a value below 16.
pub open spec fn hex_digit(d: u8) -> u8 {
    if d < 10 {
        (48 + d) as u8
    } else {
        (87 + d) as u8
    }
}

/// How `serde_json` writes one byte of a string's UTF-8 encoding: `"` and
/// `\` behind a backslash, the control bytes below 0x20 as `\b`, `\t`,
/// `\n`, `\f`, `\r` or `\u00xx`, and every other byte as it is.
pub open spec fn json_escaped_byte(b: u8) -> Seq<u8> {
    if b == 0x08 {
        seq![92u8, 98u8]
    } else if b == 0x09 {
        seq![92u8, 116u8]
    } else if b == 0x0A {
        seq![92u8, 110u8]
    } else if b == 0x0C {
        seq![92u8, 102u8]
    } else if b == 0x0D {
        seq![92u8, 114u8]
    } else if b == 0x22 {
        seq![92u8, 34u8]
    } else if b == 0x5C {
        seq![92u8, 92u8]
    } else if b < 0x20 {
        seq![92u8, 117u8, 48u8, 48u8, hex_digit(b / 16), hex_digit(b % 16)]
    } else {
        seq![b]
    }
}

/// The JSON text of a string: its UTF-8 bytes, escaped, between two `"`.
pub open spec fn json_string(s: Seq<char>) -> Seq<u8> {
    seq![34u8] + encode_utf8(s).flat_map(|b: u8| json_escaped_byte(b)) + seq![34u8]
}

/// The JSON text of a boolean.
pub open spec fn json_bool(b: bool) -> Seq<u8> {
    if b {
        seq![116u8, 114u8, 117u8, 101u8]
    } else {
        seq![102u8, 97u8, 108u8, 115u8, 101u8]
    }
}

/// `serde_json::to_vec` on a string: the string's UTF-8 bytes between two
/// `"` bytes, escaped by serde_json's table (`json_escaped_byte`);
/// serialising into a `Vec` cannot fail.
#[verifier::external_body]
fn json_of_str(s: &str) -> (r: Result<Vec<u8>, serde_json::Error>)
    ensures
        r is Ok,
        r matches Ok(v) ==> v@ == json_string(s@),
{
    serde_json::to_vec(s)
}

/// `serde_json::to_vec` on a boolean: `true` or `false`; serialising into a
/// `Vec` cannot fail.
#[verifier::external_body]
fn json_of_bool(b: bool) -> (r: Result<Vec<u8>, serde_json::Error>)
    ensures
        r is Ok,
        r matches Ok(v) ==> v@ == json_bool(b),
{
    serde_json::to_vec(&b)
}

/// A message to publish. Every message is published with at-least-once
/// delivery and retained.
#[derive(Debug, Clone)]
pub struct Publication {
    pub topic: String,
    pub payload: Vec<u8>,
}

/// `==` on the bits of two `f32` values.
pub fn f32_bits_equal(a: u32, b: u32) -> (r: bool)
    ensures
        r == f32_bits_eq(a, b),
{
    let a_nan = (a & 0x7f80_0000u32) == 0x7f80_0000u32 && (a & 0x007f_ffffu32) != 0;
    let b_nan = (b & 0x7f80_0000u32) == 0x7f80_0000u32 && (b & 0x007f_ffffu32) != 0;
    !a_nan && !b_nan && (a == b || ((a | b) & 0x7fff_ffffu32) == 0)
}

fn same_state(a: &UnitReport, b: &UnitReport) -> (r: bool)
    ensures
        r == same_report(a@, b@),
{
    a.unit == b.unit && a.power == b.power && f32_bits_equal(
        a.target_temperature,
        b.target_temperature,
    ) && f32_bits_equal(a.temperature, b.temperature) && a.fan_speed == b.fan_speed
        && a.operation_mode == b.operation_mode && a.failure_code == b.failure_code
        && a.filter_change == b.filter_change && a.demand == b.demand
}

/// The publisher's own state: the controller's name, which its topics
/// carry, and the state last published for each unit.
pub struct MqttPublisher {
    controller_name: String,
    unit_states: Vec<UnitReport>,
}

impl MqttPublisher {
    pub closed spec fn controller(&self) -> Seq<char> {
        self.controller_name@
    }

    /// The state last published for each unit.
    pub closed spec fn published(&self) -> Map<Seq<char>, UnitReportView> {
        as_map(self.unit_states@.map_values(|r: UnitReport| r@))
    }

    pub closed spec fn wf(&self) -> bool {
        units_distinct(self.unit_states@.map_values(|r: UnitReport| r@))
    }

    pub fn new(controller_name: String) -> (p: MqttPublisher)
        ensures
            p.wf(),
            p.controller() == controller_name@,
            p.published() == Map::<Seq<char>, UnitReportView>::empty(),
    {
        let p = MqttPublisher { controller_name, unit_states: Vec::new() };
        assert(p.published() =~= Map::<Seq<char>, UnitReportView>::empty());
        p
    }

    /// Offers a unit's state: records and asks for it to be published when
    /// it differs from the state last published for the unit.
    pub fn publish_if_modified(&mut self, unit_state: UnitReport) -> (publish: bool)
        requires
            old(self).wf(),
        ensures
            final(self).wf(),
            final(self).controller() == old(self).controller(),
            publish == should_publish(old(self).published(), unit_state@),
            final(self).published() == after_offer(old(self).published(), unit_state@),
    {
        let ghost old_v = self.unit_states@.map_values(|r: UnitReport| r@);
        let ghost old_map = as_map(old_v);
        let mut i: usize = 0;
        while i < self.unit_states.len()
            invariant
                i <= self.unit_states.len(),
                old_v == self.unit_states@.map_values(|r: UnitReport| r@),
                forall|j: int| 0 <= j < i ==> old_v[j].unit != unit_state.unit@,
            ensures
                i <= self.unit_states.len(),
                old_v == self.unit_states@.map_values(|r: UnitReport| r@),
                forall|j: int| 0 <= j < i ==> old_v[j].unit != unit_state.unit@,
                i < self.unit_states.len() ==> old_v[i as int].unit == unit_state.unit@,
            decreases self.unit_states.len() - i,
        {
            assert(old_v[i as int] == self.unit_states[i as int]@);
            if self.unit_states[i].unit == unit_state.unit {
                break;
            }
            i = i + 1;
        }
        if i == self.unit_states.len() {
            // No state was published for this unit yet.
            assert(!old_map.contains_key(unit_state.unit@));
            self.unit_states.push(unit_state);
            proof {
                let new_v = self.unit_states@.map_values(|r: UnitReport| r@);
                assert(new_v =~= old_v.push(unit_state@));
                lemma_as_map_push(old_v, unit_state@);
            }
            return true;
        }
        assert(old_v[i as int].unit == unit_state.unit@);
        proof {
            lemma_as_map_index(old_v, i as int);
        }
        if same_state(&self.unit_states[i], &unit_state) {
            return false;
        }
        let ghost r = unit_state@;
        self.unit_states.set(i, unit_state);
        proof {
            let new_v = self.unit_states@.map_values(|r: UnitReport| r@);
            assert(new_v =~= old_v.update(i as int, r));
            lemma_as_map_update(old_v, i as int, r);
        }
        true
    }

    /// The topic and payload that tell the controller's connection state.
    pub fn connected_publication(&self, connected: bool) -> (p: Publication)
        ensures
            p.topic@ == connected_topic_spec(self.controller()),
            p.payload@ == json_bool(connected),
    {
        let mut topic = String::new();
        push_text(&mut topic, "Aircondition/Coolmaster/");
        push_text(&mut topic, self.controller_name.as_str());
        let payload = match json_of_bool(connected) {
            Ok(v) => v,
            Err(_) => Vec::new(),
        };
        Publication { topic, payload }
    }

    /// The topic and payload that report an error.
    pub fn error_publication(&self, error_message: &str) -> (p: Publication)
        ensures
            p.topic@ == error_topic_spec(self.controller()),
            p.payload@ == json_string(error_message@),
    {
        let mut topic = String::new();
        push_text(&mut topic, "Aircondition/Error/");
        push_text(&mut topic, self.controller_name.as_str());
        let payload = match json_of_str(error_message) {
            Ok(v) => v,
            Err(_) => Vec::new(),
        };
        Publication { topic, payload }
    }

    /// The topic of a unit's state.
    pub fn state_topic(&self, unit: &str) -> (t: String)
        ensures
            t@ == state_topic_spec(self.controller(), unit@),
    {
        let mut topic = String::new();
        push_text(&mut topic, "Aircondition/State/");
        push_text(&mut topic, self.controller_name.as_str());
        push_text(&mut topic, "/");
        push_text(&mut topic, unit);
        topic
    }
}

proof fn lemma_as_map_push(v: Seq<UnitReportView>, r: UnitReportView)
    requires
        units_distinct(v),
        forall|j: int| 0 <= j < v.len() ==> v[j].unit != r.unit,
    ensures
        units_distinct(v.push(r)),
        as_map(v.push(r)) == as_map(v).insert(r.unit, r),
{
    let w = v.push(r);
    assert forall|u: Seq<char>| #[trigger] as_map(w).contains_key(u) == as_map(v).insert(
        r.unit,
        r,
    ).contains_key(u) by {
        if u == r.unit {
            assert(w[v.len() as int].unit == u);
        } else if as_map(v).contains_key(u) {
            let i = choose|i: int| 0 <= i < v.len() && v[i].unit == u;
            assert(w[i].unit == u);
        } else if as_map(w).contains_key(u) {
            let i = choose|i: int| 0 <= i < w.len() && w[i].unit == u;
            assert(v[i].unit == u);
        }
    }
    assert forall|u: Seq<char>| #[trigger] as_map(w).contains_key(u) implies as_map(w)[u] == as_map(
        v,
    ).insert(r.unit, r)[u] by {
        let i = choose|i: int| 0 <= i < w.len() && w[i].unit == u;
        if u == r.unit {
            assert(i == v.len());
        } else {
            let k = choose|k: int| 0 <= k < v.len() && v[k].unit == u;
            assert(w[k].unit == u);
            assert(i == k);
        }
    }
    assert(as_map(w) =~= as_map(v).insert(r.unit, r));
}

proof fn lemma_as_map_index(v: Seq<UnitReportView>, i: int)
    requires
        units_distinct(v),
        0 <= i < v.len(),
    ensures
        as_map(v).contains_key(v[i].unit),
        as_map(v)[v[i].unit] == v[i],
{
    let u = v[i].unit;
    assert(as_map(v).contains_key(u));
    let k = choose|k: int| 0 <= k < v.len() && v[k].unit == u;
    assert(k == i);
}

proof fn lemma_as_map_update(v: Seq<UnitReportView>, i: int, r: UnitReportView)
    requires
        units_distinct(v),
        0 <= i < v.len(),
        v[i].unit == r.unit,
    ensures
        units_distinct(v.update(i, r)),
        as_map(v.update(i, r)) == as_map(v).insert(r.unit, r),
{
    let w = v.update(i, r);
    assert forall|u: Seq<char>| #[trigger] as_map(w).contains_key(u) == as_map(v).insert(
        r.unit,
        r,
    ).contains_key(u) by {
        if as_map(v).contains_key(u) {
            let k = choose|k: int| 0 <= k < v.len() && v[k].unit == u;
            assert(w[k].unit == u);
        }
        if as_map(w).contains_key(u) {
            let k = choose|k: int| 0 <= k < w.len() && w[k].unit == u;
            assert(v[k].unit == u);
        }
        if u == r.unit {
            assert(w[i].unit == u);
        }
    }
    assert forall|u: Seq<char>| #[trigger] as_map(w).contains_key(u) implies as_map(w)[u] == as_map(
        v,
    ).insert(r.unit, r)[u] by {
        let k = choose|k: int| 0 <= k < w.len() && w[k].unit == u;
        if u == r.unit {
            assert(k == i);
        } else {
            let k2 = choose|k2: int| 0 <= k2 < v.len() && v[k2].unit == u;
            assert(w[k2].unit == u);
            assert(k == k2);
        }
    }
    assert(as_map(w) =~= as_map(v).insert(r.unit, r));
}

/// Offering the state just published again publishes nothing and changes
/// nothing. (A NaN temperature equals nothing, itself included, so a state
/// that holds one is published every time.)
pub proof fn lemma_republishing_is_silent(last: Map<Seq<char>, UnitReportView>, r: UnitReportView)
    requires
        !f32_bits_nan(r.target_temperature),
        !f32_bits_nan(r.temperature),
    ensures
        !should_publish(after_offer(last, r), r),
        after_offer(after_offer(last, r), r) == after_offer(last, r),
{
    let m = after_offer(last, r);
    assert(m.contains_key(r.unit));
    if should_publish(last, r) {
        assert(m[r.unit] == r);
    }
    assert(same_report(m[r.unit], r));
}

/// After a state is offered, the state on record for its unit equals it,
/// and the other units' records are as they were.
pub proof fn lemma_offer_records_state(last: Map<Seq<char>, UnitReportView>, r: UnitReportView, u: Seq<char>)
    requires
        !f32_bits_nan(r.target_temperature),
        !f32_bits_nan(r.temperature),
    ensures
        after_offer(last, r).contains_key(r.unit),
        same_report(after_offer(last, r)[r.unit], r),
        u != r.unit ==> after_offer(last, r).contains_key(u) == last.contains_key(u),
        u != r.unit && last.contains_key(u) ==> after_offer(last, r)[u] == last[u],
{
}

/// `==` on `f32` bits is symmetric, and holds of every value but a NaN
/// with itself.
pub proof fn lemma_f32_bits_eq(a: u32, b: u32)
    ensures
        f32_bits_eq(a, b) == f32_bits_eq(b, a),
        f32_bits_eq(a, a) == !f32_bits_nan(a),
{
    assert((a | b) == (b | a)) by (bit_vector);
    assert(!f32_bits_nan(a) ==> (a == a)) by (bit_vector);
}

/// When two `f32` values given by their bits are equal: neither is a NaN
/// (exponent all ones, fraction not zero) and their bits agree, or both are
/// zeros of either sign.
proof fn lemma_f32_equality_by_bits(a: u32, b: u32)
    ensures
        f32_bits_eq(a, b) == ((a == b && (a & 0x7fff_ffffu32) <= 0x7f80_0000u32) || ((a | b)
            & 0x7fff_ffffu32) == 0),
{
    assert(f32_bits_eq(a, b) == ((a == b && (a & 0x7fff_ffffu32) <= 0x7f80_0000u32) || ((a | b)
        & 0x7fff_ffffu32) == 0)) by (bit_vector);
}

/// A state is published exactly when no state is on record for its unit,
/// or the one on record differs from it in some field: the unit, the
/// power, a temperature (as `f32` values: a NaN equals nothing, the two
/// zeros are equal), the fan speed, the mode, the failure code, the filter
/// flag or the demand.
pub proof fn lemma_published_exactly_on_change(
    last: Map<Seq<char>, UnitReportView>,
    r: UnitReportView,
)
    ensures
        !should_publish(last, r) <==> {
            &&& last.contains_key(r.unit)
            &&& last[r.unit].unit == r.unit
            &&& last[r.unit].power == r.power
            &&& ((last[r.unit].target_temperature == r.target_temperature && (r.target_temperature
                & 0x7fff_ffffu32) <= 0x7f80_0000u32) || ((last[r.unit].target_temperature
                | r.target_temperature) & 0x7fff_ffffu32) == 0)
            &&& ((last[r.unit].temperature == r.temperature && (r.temperature & 0x7fff_ffffu32)
                <= 0x7f80_0000u32) || ((last[r.unit].temperature | r.temperature)
                & 0x7fff_ffffu32) == 0)
            &&& last[r.unit].fan_speed == r.fan_speed
            &&& last[r.unit].operation_mode == r.operation_mode
            &&& last[r.unit].failure_code == r.failure_code
            &&& last[r.unit].filter_change == r.filter_change
            &&& last[r.unit].demand == r.demand
        },
{
    if last.contains_key(r.unit) {
        let o = last[r.unit];
        lemma_f32_equality_by_bits(o.target_temperature, r.target_temperature);
        lemma_f32_equality_by_bits(o.temperature, r.temperature);
    }
}

/// Switching a unit on or off always gets its state published.
pub proof fn lemma_power_change_is_published(last: Map<Seq<char>, UnitReportView>, r: UnitReportView)
    requires
        last.contains_key(r.unit),
        last[r.unit].power != r.power,
    ensures
        should_publish(last, r),
        after_offer(last, r)[r.unit] == r,
{
    lemma_published_exactly_on_change(last, r);
}

/// The topics the publisher writes to: the unit's state, the errors and
/// the controller's connection, each under `Aircondition/` and carrying
/// the controller's name.
pub proof fn lemma_publication_topics(controller: Seq<char>, unit: Seq<char>)
    ensures
        state_topic_spec(controller, unit) == "Aircondition/State/"@ + controller + "/"@ + unit,
        error_topic_spec(controller) == "Aircondition/Error/"@ + controller,
        connected_topic_spec(controller) == "Aircondition/Coolmaster/"@ + controller,
{
}

/// Offering a state records it for its unit exactly when it is published,
/// and otherwise leaves the record as it was.
pub proof fn lemma_record_follows_publication(last: Map<Seq<char>, UnitReportView>, r: UnitReportView)
    ensures
        should_publish(last, r) ==> after_offer(last, r) == last.insert(r.unit, r),
        !should_publish(last, r) ==> after_offer(last, r) == last,
{
}

} // verus!
