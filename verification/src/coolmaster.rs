//! The CoolMaster controller's text protocol and the decisions of the worker
//! that talks to it.
//!
//! A command is a line of text ended by a carriage return; the controller
//! answers with a body, a status line (`OK`, or an error) and a `>` prompt.
use vstd::prelude::*;

use crate::ac_unit::{
    parse_unit_state, parse_unit_state_panics, FanSpeed, OperationMode, UnitState, UnitStateView,
};
use crate::error::{CoolmasterError, CoolmasterErrorView};
use crate::messages::{
    ToCoolmasterMessage, ToCoolmasterMessageView, ToMqttPublisherMessage,
    ToMqttPublisherMessageView,
};
use crate::number::{
    decimal_text, is_digit, lemma_decimal_text, lemma_u16_decimal_round_trip, parse_u16,
    parse_u16_text,
};
use crate::text::{
    chars_of, ends_with, is_white_space, is_word, last_crlf, lines, push_text, rsplit_once_crlf, split_last_crlf,
    split_lines, split_on, split_pieces, string_of, trim, trim_end, trim_start, trimmed,
};
use vstd::utf8::{decode_utf8, valid_utf8};

verus! {

/// Where the worker stands with the controller.
#[derive(Debug, Clone, Copy, PartialEq, Eq, Structural)]
pub enum WorkerState {
    /// Not started yet.
    Disconnected,
    /// Trying to open the connection.
    Connecting,
    /// Connected, handling messages.
    Connected,
}

/// What happened since the worker's last step.
#[derive(Debug, Clone, Copy, PartialEq, Eq, Structural)]
pub enum WorkerEvent {
    Start,
    ConnectSucceeded,
    ConnectFailed,
    ReceiveFailed,
    MessageHandled,
    /// Handling a message failed; `command_error` tells whether the
    /// controller itself refused the command.
    MessageFailed { command_error: bool },
}

/// What the worker asks to be done, in order, before its next step: when
/// `Connecting` it next tries to connect, when `Connected` it next waits
/// for a message.
#[derive(Debug, Clone, Copy, PartialEq, Eq, Structural)]
pub enum WorkerAction {
    /// Publish whether the controller is connected.
    PublishConnected(bool),
    /// Publish the error that the last event carried.
    PublishError,
    /// Wait this many seconds.
    Wait(u64),
    /// Close the connection to the controller.
    DropConnection,
}

/// Seconds to wait after a failed connection attempt.
pub const RECONNECT_DELAY_SECS: u64 = 5;

/// The controller's port where the address names none.
pub const DEFAULT_PORT_TEXT: &'static str = "10102";

/// The worker's step: its next state and what it asks to be done.
pub open spec fn worker_step(s: WorkerState, e: WorkerEvent) -> (WorkerState, Seq<WorkerAction>) {
    match (s, e) {
        (WorkerState::Disconnected, WorkerEvent::Start) => (
            WorkerState::Connecting,
            seq![WorkerAction::PublishConnected(false)],
        ),
        (WorkerState::Connecting, WorkerEvent::ConnectSucceeded) => (
            WorkerState::Connected,
            seq![WorkerAction::PublishConnected(true)],
        ),
        (WorkerState::Connecting, WorkerEvent::ConnectFailed) => (
            WorkerState::Connecting,
            seq![WorkerAction::PublishError, WorkerAction::Wait(RECONNECT_DELAY_SECS)],
        ),
        (WorkerState::Connected, WorkerEvent::ReceiveFailed) => (WorkerState::Connected, seq![]),
        (WorkerState::Connected, WorkerEvent::MessageHandled) => (WorkerState::Connected, seq![]),
        (WorkerState::Connected, WorkerEvent::MessageFailed { command_error }) => if command_error {
            (WorkerState::Connected, seq![WorkerAction::PublishError])
        } else {
            (
                WorkerState::Connecting,
                seq![
                    WorkerAction::PublishError,
                    WorkerAction::DropConnection,
                    WorkerAction::PublishConnected(false),
                ],
            )
        },
        _ => (s, seq![]),
    }
}

/// The worker, as far as its decisions go; the connection itself is the
/// caller's.
pub struct Coolmaster {
    pub state: WorkerState,
}

/// How the parts of an address are read: the host up to the first `:`, the
/// port up to the next `:`, or `10102`.
pub open spec fn split_host_port_spec(s: Seq<char>) -> Result<(Seq<char>, u16), CoolmasterErrorView> {
    let p = split_on(s, ':');
    let port_text = if p.len() >= 2 {
        p[1]
    } else {
        DEFAULT_PORT_TEXT@
    };
    match parse_u16(port_text) {
        Some(port) => Ok((p[0], port)),
        None => Err(CoolmasterErrorView::InvalidCoolmasterPort(s)),
    }
}

/// The command word for an operation mode.
pub open spec fn mode_word(m: OperationMode) -> Seq<char> {
    match m {
        OperationMode::Cool => "cool"@,
        OperationMode::Heat => "heat"@,
        OperationMode::Dry => "dry"@,
        OperationMode::Fan => "fan"@,
        OperationMode::Auto => "auto"@,
    }
}

/// The letter by which the `fspeed` command names a fan speed.
pub open spec fn fan_speed_letter(f: FanSpeed) -> Seq<char> {
    match f {
        FanSpeed::VLow => "v"@,
        FanSpeed::Low => "l"@,
        FanSpeed::Medium => "m"@,
        FanSpeed::High => "h"@,
        FanSpeed::Top => "t"@,
        FanSpeed::Auto => "a"@,
    }
}

/// The command that carries out a message.
pub open spec fn command_text(m: ToCoolmasterMessageView) -> Seq<char> {
    match m {
        ToCoolmasterMessageView::SetUnitPower(u, power) => if power {
            "on "@ + u
        } else {
            "off "@ + u
        },
        ToCoolmasterMessageView::SetUnitMode(u, mode) => mode_word(mode) + " "@ + u,
        ToCoolmasterMessageView::SetFanSpeed(u, f) => "fspeed "@ + u + " "@ + fan_speed_letter(f),
        ToCoolmasterMessageView::SetTargetTemperature(u, t) => "temp "@ + u + " "@ + t,
        ToCoolmasterMessageView::ResetFilter(u) => "filt "@ + u,
        ToCoolmasterMessageView::PublishUnitState(u) => "ls2 "@ + u,
        ToCoolmasterMessageView::PublishUnitsState => "ls2"@,
    }
}

/// A command as written to the controller: ended by a carriage return
/// unless it already ends with one or with a line feed.
pub open spec fn framed(command: Seq<char>) -> Seq<char> {
    if ends_with(command, '\r') || ends_with(command, '\n') {
        command
    } else {
        command.push('\r')
    }
}

/// The status line decides: `OK` and `ERROR: 0` give the body.
pub open spec fn parse_status_spec(body: Seq<char>, status: Seq<char>) -> Result<
    Seq<char>,
    CoolmasterErrorView,
> {
    if status == "OK"@ || status == "ERROR: 0"@ {
        Ok(body)
    } else {
        Err(CoolmasterErrorView::CoolmasterCommandError(status))
    }
}

/// A reply, trimmed, is its body and, after the last line break, its
/// status; a reply of one line is a status alone.
pub open spec fn parse_reply_spec(reply: Seq<char>) -> Result<Seq<char>, CoolmasterErrorView> {
    let r = trim(reply);
    match rsplit_once_crlf(r) {
        Some((body, status)) => parse_status_spec(body, status),
        None => parse_status_spec(Seq::<char>::empty(), r),
    }
}

/// The bytes read up to and with the prompt, the prompt dropped, decoded.
pub open spec fn reply_text_spec(bytes: Seq<u8>) -> Result<Seq<char>, CoolmasterErrorView> {
    let b = if bytes.len() > 0 && bytes.last() == 62u8 {
        bytes.drop_last()
    } else {
        bytes
    };
    if valid_utf8(b) {
        parse_reply_spec(decode_utf8(b))
    } else {
        Err(CoolmasterErrorView::InvalidReply)
    }
}

/// The states of the lines, the first line that fails deciding the error.
pub open spec fn parse_unit_states(ls: Seq<Seq<char>>) -> Result<
    Seq<UnitStateView>,
    CoolmasterErrorView,
>
    decreases ls.len(),
{
    if ls.len() == 0 {
        Ok(Seq::<UnitStateView>::empty())
    } else {
        match parse_unit_state(ls[0]) {
            Err(e) => Err(e),
            Ok(u) => match parse_unit_states(ls.drop_first()) {
                Err(e) => Err(e),
                Ok(rest) => Ok(seq![u] + rest),
            },
        }
    }
}

/// Whether parsing the lines in order reaches one that panics.
pub open spec fn parse_unit_states_panics(ls: Seq<Seq<char>>) -> bool
    decreases ls.len(),
{
    if ls.len() == 0 {
        false
    } else {
        parse_unit_state_panics(ls[0]) || (parse_unit_state(ls[0]) is Ok
            && parse_unit_states_panics(ls.drop_first()))
    }
}

/// What the reply body to a message gives to publish.
pub open spec fn reply_message_spec(m: ToCoolmasterMessageView, body: Seq<char>) -> Result<
    Option<ToMqttPublisherMessageView>,
    CoolmasterErrorView,
> {
    match m {
        ToCoolmasterMessageView::PublishUnitState(_) => match parse_unit_state(body) {
            Ok(s) => Ok(Some(ToMqttPublisherMessageView::UnitState(s))),
            Err(e) => Err(e),
        },
        ToCoolmasterMessageView::PublishUnitsState => match parse_unit_states(lines(body)) {
            Ok(v) => Ok(Some(ToMqttPublisherMessageView::UnitsState(v))),
            Err(e) => Err(e),
        },
        _ => Ok(None),
    }
}

/// Whether reading the reply body to a message panics.
pub open spec fn reply_message_panics(m: ToCoolmasterMessageView, body: Seq<char>) -> bool {
    match m {
        ToCoolmasterMessageView::PublishUnitState(_) => parse_unit_state_panics(body),
        ToCoolmasterMessageView::PublishUnitsState => parse_unit_states_panics(lines(body)),
        _ => false,
    }
}

/// `String::from_utf8`: as its documentation says, it succeeds exactly when
/// the bytes are valid UTF-8, and the string then holds the characters they
/// encode.
#[verifier::external_body]
fn string_from_utf8(bytes: Vec<u8>) -> (r: Result<String, std::string::FromUtf8Error>)
    ensures
        r is Ok == valid_utf8(bytes@),
        r matches Ok(s) ==> s@ == decode_utf8(bytes@),
{
    String::from_utf8(bytes)
}

impl Coolmaster {
    pub fn new() -> (c: Coolmaster)
        ensures
            c.state == WorkerState::Disconnected,
    {
        Coolmaster { state: WorkerState::Disconnected }
    }

    /// Takes the worker one step on an event.
    pub fn step(&mut self, event: WorkerEvent) -> (actions: Vec<WorkerAction>)
        ensures
            (final(self).state, actions@) == worker_step(old(self).state, event),
    {
        let mut actions: Vec<WorkerAction> = Vec::new();
        match (self.state, event) {
            (WorkerState::Disconnected, WorkerEvent::Start) => {
                actions.push(WorkerAction::PublishConnected(false));
                self.state = WorkerState::Connecting;
            },
            (WorkerState::Connecting, WorkerEvent::ConnectSucceeded) => {
                actions.push(WorkerAction::PublishConnected(true));
                self.state = WorkerState::Connected;
            },
            (WorkerState::Connecting, WorkerEvent::ConnectFailed) => {
                actions.push(WorkerAction::PublishError);
                actions.push(WorkerAction::Wait(RECONNECT_DELAY_SECS));
            },
            (WorkerState::Connected, WorkerEvent::MessageFailed { command_error }) => {
                actions.push(WorkerAction::PublishError);
                if !command_error {
                    actions.push(WorkerAction::DropConnection);
                    actions.push(WorkerAction::PublishConnected(false));
                    self.state = WorkerState::Connecting;
                }
            },
            _ => {},
        }
        assert(actions@ =~= worker_step(old(self).state, event).1);
        actions
    }

    /// Splits `host[:port]`; the port defaults to 10102.
    pub fn split_host_port(host_port: &str) -> (r: Result<(String, u16), CoolmasterError>)
        ensures
            match r {
                Ok((host, port)) => split_host_port_spec(host_port@) == Ok::<
                    (Seq<char>, u16),
                    CoolmasterErrorView,
                >((host@, port)),
                Err(e) => split_host_port_spec(host_port@) == Err::<
                    (Seq<char>, u16),
                    CoolmasterErrorView,
                >(e@),
            },
    {
        let cs = chars_of(host_port);
        let parts = split_pieces(&cs, ':');
        let ghost pv = parts@.map_values(|t: Vec<char>| t@);
        assert(pv == split_on(host_port@, ':'));
        proof {
            crate::text::lemma_split_on_nonempty(host_port@, ':');
        }
        assert(pv[0] == parts[0]@);
        let host = string_of(&parts[0]);
        let port = if parts.len() >= 2 {
            assert(pv[1] == parts[1]@);
            parse_u16_text(&parts[1])
        } else {
            let default_port = chars_of(DEFAULT_PORT_TEXT);
            parse_u16_text(&default_port)
        };
        match port {
            Some(port) => Ok((host, port)),
            None => Err(CoolmasterError::InvalidCoolmasterPort(string_of(&cs))),
        }
    }

    /// The command that carries out the message.
    pub fn command_text(message: &ToCoolmasterMessage) -> (c: String)
        ensures
            c@ == command_text(message@),
    {
        let mut c = String::new();
        match message {
            ToCoolmasterMessage::SetUnitPower(unit, power) => {
                if *power {
                    push_text(&mut c, "on ");
                } else {
                    push_text(&mut c, "off ");
                }
                push_text(&mut c, unit.as_str());
            },
            ToCoolmasterMessage::SetUnitMode(unit, mode) => {
                match mode {
                    OperationMode::Cool => push_text(&mut c, "cool"),
                    OperationMode::Heat => push_text(&mut c, "heat"),
                    OperationMode::Dry => push_text(&mut c, "dry"),
                    OperationMode::Fan => push_text(&mut c, "fan"),
                    OperationMode::Auto => push_text(&mut c, "auto"),
                }
                push_text(&mut c, " ");
                push_text(&mut c, unit.as_str());
            },
            ToCoolmasterMessage::SetFanSpeed(unit, speed) => {
                push_text(&mut c, "fspeed ");
                push_text(&mut c, unit.as_str());
                push_text(&mut c, " ");
                match speed {
                    FanSpeed::VLow => push_text(&mut c, "v"),
                    FanSpeed::Low => push_text(&mut c, "l"),
                    FanSpeed::Medium => push_text(&mut c, "m"),
                    FanSpeed::High => push_text(&mut c, "h"),
                    FanSpeed::Top => push_text(&mut c, "t"),
                    FanSpeed::Auto => push_text(&mut c, "a"),
                }
            },
            ToCoolmasterMessage::SetTargetTemperature(unit, temperature) => {
                push_text(&mut c, "temp ");
                push_text(&mut c, unit.as_str());
                push_text(&mut c, " ");
                push_text(&mut c, temperature.as_str());
            },
            ToCoolmasterMessage::ResetFilter(unit) => {
                push_text(&mut c, "filt ");
                push_text(&mut c, unit.as_str());
            },
            ToCoolmasterMessage::PublishUnitState(unit) => {
                push_text(&mut c, "ls2 ");
                push_text(&mut c, unit.as_str());
            },
            ToCoolmasterMessage::PublishUnitsState => {
                push_text(&mut c, "ls2");
            },
        }
        assert(c@ =~= command_text(message@));
        c
    }

    /// The text written to the controller for a command.
    pub fn frame_command(command: &str) -> (f: String)
        ensures
            f@ == framed(command@),
    {
        let cs = chars_of(command);
        let mut f = string_of(&cs);
        if !(cs.len() > 0 && (cs[cs.len() - 1] == '\r' || cs[cs.len() - 1] == '\n')) {
            push_text(&mut f, "\r");
            proof {
                reveal_strlit("\r");
            }
            assert(f@ =~= command@.push('\r'));
        }
        f
    }

    /// The status line decides: `OK` and `ERROR: 0` give the body, any
    /// other status is the controller's error.
    pub fn parse_status(body: &str, status: &str) -> (r: Result<String, CoolmasterError>)
        ensures
            match r {
                Ok(b) => parse_status_spec(body@, status@) == Ok::<
                    Seq<char>,
                    CoolmasterErrorView,
                >(b@),
                Err(e) => parse_status_spec(body@, status@) == Err::<
                    Seq<char>,
                    CoolmasterErrorView,
                >(e@),
            },
    {
        let b = chars_of(body);
        let s = chars_of(status);
        Coolmaster::status_of(&b, &s)
    }

    fn status_of(body: &[char], status: &[char]) -> (r: Result<String, CoolmasterError>)
        ensures
            match r {
                Ok(b) => parse_status_spec(body@, status@) == Ok::<
                    Seq<char>,
                    CoolmasterErrorView,
                >(b@),
                Err(e) => parse_status_spec(body@, status@) == Err::<
                    Seq<char>,
                    CoolmasterErrorView,
                >(e@),
            },
    {
        if is_word(status, "OK") || is_word(status, "ERROR: 0") {
            Ok(string_of(body))
        } else {
            Err(CoolmasterError::CoolmasterCommandError(string_of(status)))
        }
    }

    /// Reads a reply into its body, or the controller's error.
    pub fn parse_reply(reply: &str) -> (r: Result<String, CoolmasterError>)
        ensures
            match r {
                Ok(b) => parse_reply_spec(reply@) == Ok::<Seq<char>, CoolmasterErrorView>(b@),
                Err(e) => parse_reply_spec(reply@) == Err::<Seq<char>, CoolmasterErrorView>(e@),
            },
    {
        let cs = chars_of(reply);
        Coolmaster::reply_of(&cs)
    }

    fn reply_of(reply: &[char]) -> (r: Result<String, CoolmasterError>)
        ensures
            match r {
                Ok(b) => parse_reply_spec(reply@) == Ok::<Seq<char>, CoolmasterErrorView>(b@),
                Err(e) => parse_reply_spec(reply@) == Err::<Seq<char>, CoolmasterErrorView>(e@),
            },
    {
        let t = trimmed(reply);
        match split_last_crlf(&t) {
            Some((body, status)) => Coolmaster::status_of(&body, &status),
            None => {
                let empty: Vec<char> = Vec::new();
                assert(empty@ =~= Seq::<char>::empty());
                Coolmaster::status_of(&empty, &t)
            },
        }
    }

    /// The reply to a command from the bytes read up to and with the
    /// prompt: the prompt dropped, the text decoded and read. Errors come
    /// back unwrapped (see `CoolmasterError`).
    pub fn reply_from_bytes(bytes: Vec<u8>) -> (r: Result<String, CoolmasterError>)
        ensures
            match r {
                Ok(b) => reply_text_spec(bytes@) == Ok::<Seq<char>, CoolmasterErrorView>(b@),
                Err(e) => reply_text_spec(bytes@) == Err::<Seq<char>, CoolmasterErrorView>(e@),
            },
    {
        let mut bytes = bytes;
        let ghost original = bytes@;
        if bytes.len() > 0 && bytes[bytes.len() - 1] == 62u8 {
            bytes.pop();
            assert(bytes@ =~= original.drop_last());
        }
        match string_from_utf8(bytes) {
            Ok(reply) => Coolmaster::parse_reply(reply.as_str()),
            Err(e) => Err(CoolmasterError::InvalidReply(e)),
        }
    }

    /// Whether reading the reply body to the message would panic (see
    /// `parse_unit_state_panics`).
    pub fn reply_message_panics(message: &ToCoolmasterMessage, body: &str) -> (b: bool)
        ensures
            b == reply_message_panics(message@, body@),
    {
        match message {
            ToCoolmasterMessage::PublishUnitState(_) => UnitState::from_str_panics(body),
            ToCoolmasterMessage::PublishUnitsState => {
                let cs = chars_of(body);
                let ls = split_lines(&cs);
                let ghost lv = ls@.map_values(|t: Vec<char>| t@);
                let mut i: usize = 0;
                assert(lv.skip(0) =~= lv);
                assert(lv =~= lines(body@));
                while i < ls.len()
                    invariant
                        i <= ls.len(),
                        lv == ls@.map_values(|t: Vec<char>| t@),
                        lv == lines(body@),
                        reply_message_panics(message@, body@) == parse_unit_states_panics(lv),
                        parse_unit_states_panics(lv) == parse_unit_states_panics(lv.skip(i as int)),
                    decreases ls.len() - i,
                {
                    let line = &ls[i];
                    assert(lv.skip(i as int)[0] == line@);
                    assert(lv.skip(i as int).drop_first() =~= lv.skip(i + 1));
                    if UnitState::line_panics(line) {
                        return true;
                    }
                    match UnitState::from_chars(line) {
                        Ok(_) => {},
                        Err(_) => {
                            return false;
                        },
                    }
                    i = i + 1;
                }
                false
            },
            _ => false,
        }
    }

    /// What the reply body to a message gives to publish: the unit's state
    /// for `PublishUnitState`, the states of all units, one per line, for
    /// `PublishUnitsState`, and nothing for the other messages. A parse
    /// error comes back unwrapped (see `CoolmasterError`).
    pub fn reply_message(message: &ToCoolmasterMessage, body: &str) -> (r: Result<
        Option<ToMqttPublisherMessage>,
        CoolmasterError,
    >)
        requires
            !reply_message_panics(message@, body@),
        ensures
            match r {
                Ok(Some(m)) => reply_message_spec(message@, body@) == Ok::<
                    Option<ToMqttPublisherMessageView>,
                    CoolmasterErrorView,
                >(Some(m@)),
                Ok(None) => reply_message_spec(message@, body@) == Ok::<
                    Option<ToMqttPublisherMessageView>,
                    CoolmasterErrorView,
                >(None),
                Err(e) => reply_message_spec(message@, body@) == Err::<
                    Option<ToMqttPublisherMessageView>,
                    CoolmasterErrorView,
                >(e@),
            },
    {
        match message {
            ToCoolmasterMessage::PublishUnitState(_) => match UnitState::from_str(body) {
                Ok(s) => Ok(Some(ToMqttPublisherMessage::UnitState(s))),
                Err(e) => Err(e),
            },
            ToCoolmasterMessage::PublishUnitsState => match Coolmaster::units_state(body) {
                Ok(v) => Ok(Some(ToMqttPublisherMessage::UnitsState(v))),
                Err(e) => Err(e),
            },
            _ => Ok(None),
        }
    }

    /// The states of all units from the body of the reply to `ls2`, one
    /// unit per line.
    pub fn units_state(body: &str) -> (r: Result<Vec<UnitState>, CoolmasterError>)
        requires
            !parse_unit_states_panics(lines(body@)),
        ensures
            match r {
                Ok(v) => parse_unit_states(lines(body@)) == Ok::<
                    Seq<UnitStateView>,
                    CoolmasterErrorView,
                >(v@.map_values(|s: UnitState| s@)),
                Err(e) => parse_unit_states(lines(body@)) == Err::<
                    Seq<UnitStateView>,
                    CoolmasterErrorView,
                >(e@),
            },
    {
        let cs = chars_of(body);
        let ls = split_lines(&cs);
        let ghost lv = ls@.map_values(|t: Vec<char>| t@);
        let mut states: Vec<UnitState> = Vec::new();
        let mut i: usize = 0;
        assert(lv.skip(0) =~= lv);
        assert(states@.map_values(|s: UnitState| s@) =~= Seq::<UnitStateView>::empty());
        while i < ls.len()
            invariant
                i <= ls.len(),
                lv == ls@.map_values(|t: Vec<char>| t@),
                lv == lines(body@),
                !parse_unit_states_panics(lv.skip(i as int)),
                parse_unit_states(lv) == match parse_unit_states(lv.skip(i as int)) {
                    Ok(rest) => Ok(states@.map_values(|s: UnitState| s@) + rest),
                    Err(e) => Err::<Seq<UnitStateView>, CoolmasterErrorView>(e),
                },
            decreases ls.len() - i,
        {
            let line = &ls[i];
            assert(lv.skip(i as int)[0] == line@);
            assert(lv.skip(i as int).drop_first() =~= lv.skip(i + 1));
            match UnitState::from_chars(line) {
                Ok(s) => {
                    let ghost before = states@.map_values(|s: UnitState| s@);
                    states.push(s);
                    proof {
                        let after = states@.map_values(|s: UnitState| s@);
                        assert(after =~= before.push(s@));
                        match parse_unit_states(lv.skip(i + 1)) {
                            Ok(rest) => {
                                assert(before + (seq![s@] + rest) =~= after + rest);
                            },
                            Err(_) => {},
                        }
                    }
                },
                Err(e) => {
                    return Err(e);
                },
            }
            i = i + 1;
        }
        assert(lv.skip(i as int) =~= Seq::<Seq<char>>::empty());
        assert(states@.map_values(|s: UnitState| s@) + Seq::<UnitStateView>::empty() =~= states@.map_values(
            |s: UnitState| s@,
        ));
        Ok(states)
    }
}

/// Whether the controller is connected, as the last `PublishConnected`
/// among the actions tells it, or as before when there is none.
pub open spec fn announced_after(actions: Seq<WorkerAction>, before: Option<bool>) -> Option<bool>
    decreases actions.len(),
{
    if actions.len() == 0 {
        before
    } else {
        match actions.last() {
            WorkerAction::PublishConnected(c) => Some(c),
            _ => announced_after(actions.drop_last(), before),
        }
    }
}

/// What the worker has announced in a state: nothing before it starts,
/// `false` while it connects, `true` while it is connected.
pub open spec fn announced_in(s: WorkerState) -> Option<bool> {
    match s {
        WorkerState::Disconnected => None,
        WorkerState::Connecting => Some(false),
        WorkerState::Connected => Some(true),
    }
}

/// The published connection state follows the worker: after every step,
/// the last connection state it asked to publish is whether it is now
/// connected.
pub proof fn lemma_announced_connection_follows_state(s: WorkerState, e: WorkerEvent)
    ensures
        announced_after(worker_step(s, e).1, announced_in(s)) == announced_in(worker_step(s, e).0),
{
    reveal_with_fuel(announced_after, 4);
}

/// A command that the controller refuses leaves the connection up; any
/// other failure to handle a message drops it and connects again.
pub proof fn lemma_only_command_errors_keep_connection(command_error: bool)
    ensures
        worker_step(WorkerState::Connected, WorkerEvent::MessageFailed { command_error }).0 == (
        if command_error {
            WorkerState::Connected
        } else {
            WorkerState::Connecting
        }),
        !command_error ==> worker_step(
            WorkerState::Connected,
            WorkerEvent::MessageFailed { command_error },
        ).1.contains(WorkerAction::DropConnection),
{
    if !command_error {
        assert(worker_step(
            WorkerState::Connected,
            WorkerEvent::MessageFailed { command_error },
        ).1[1] == WorkerAction::DropConnection);
    }
}

/// A framed command ends with a line break, and framing it again changes
/// nothing.
pub proof fn lemma_framing_is_idempotent(command: Seq<char>)
    ensures
        ends_with(framed(command), '\r') || ends_with(framed(command), '\n'),
        framed(framed(command)) == framed(command),
{
}

/// The states read from a reply are one per line.
pub proof fn lemma_one_state_per_line(ls: Seq<Seq<char>>)
    ensures
        parse_unit_states(ls) matches Ok(v) ==> v.len() == ls.len(),
    decreases ls.len(),
{
    if ls.len() > 0 {
        lemma_one_state_per_line(ls.drop_first());
    }
}

/// An address without a port gets the port 10102.
pub proof fn lemma_default_port(host: Seq<char>)
    requires
        !host.contains(':'),
    ensures
        split_host_port_spec(host) == Ok::<(Seq<char>, u16), CoolmasterErrorView>((host, 10102u16)),
{
    lemma_split_on_without_sep(host, ':');
    reveal_strlit("10102");
    let d = DEFAULT_PORT_TEXT@;
    assert(d =~= seq!['1', '0', '1', '0', '2']);
    assert(seq!['1'].drop_last() =~= Seq::<char>::empty());
    assert(('1' as int) == 49 && ('0' as int) == 48 && ('2' as int) == 50);
    assert(crate::number::decimal_value(Seq::<char>::empty()) == 0);
    assert(crate::number::digit_value('1') == 1);
    assert(crate::number::decimal_value(seq!['1']) == 1);
    assert(seq!['1', '0'].drop_last() =~= seq!['1']);
    assert(crate::number::decimal_value(seq!['1', '0']) == 10);
    assert(seq!['1', '0', '1'].drop_last() =~= seq!['1', '0']);
    assert(crate::number::decimal_value(seq!['1', '0', '1']) == 101);
    assert(seq!['1', '0', '1', '0'].drop_last() =~= seq!['1', '0', '1']);
    assert(crate::number::decimal_value(seq!['1', '0', '1', '0']) == 1010);
    assert(d.drop_last() =~= seq!['1', '0', '1', '0']);
    assert(crate::number::decimal_value(d) == 10102);
    assert(crate::number::unsigned_digits(d) == d);
}

/// A text without the separator is one piece.
pub proof fn lemma_split_on_without_sep(s: Seq<char>, sep: char)
    requires
        !s.contains(sep),
    ensures
        split_on(s, sep) == seq![s],
    decreases s.len(),
{
    if s.len() > 0 {
        assert(!s.drop_last().contains(sep)) by {
            if s.drop_last().contains(sep) {
                let i = choose|i: int| 0 <= i < s.drop_last().len() && s.drop_last()[i] == sep;
                assert(s[i] == sep);
            }
        }
        lemma_split_on_without_sep(s.drop_last(), sep);
        assert(s.last() != sep) by {
            assert(s[s.len() - 1] == s.last());
        }
        assert(s.drop_last().push(s.last()) =~= s);
    } else {
        assert(s =~= Seq::<char>::empty());
    }
}

proof fn lemma_last_crlf_append(p: Seq<char>, s: Seq<char>)
    requires
        last_crlf(s) is None,
        s.len() > 0 ==> !(p.len() > 0 && p.last() == '\r' && s[0] == '\n'),
    ensures
        last_crlf(p + s) == last_crlf(p),
    decreases s.len(),
{
    if s.len() == 0 {
        assert(p + s =~= p);
    } else {
        let ps = p + s;
        assert(ps.drop_last() =~= p + s.drop_last());
        if s.len() >= 2 {
            assert(ps[ps.len() - 2] == s[s.len() - 2]);
            assert(ps[ps.len() - 1] == s[s.len() - 1]);
        } else if p.len() > 0 {
            assert(ps[ps.len() - 2] == p.last());
            assert(ps[ps.len() - 1] == s[0]);
        }
        lemma_last_crlf_append(p, s.drop_last());
    }
}

/// A reply is its body, a line break and a status line: whatever the body
/// holds, the status after the last line break decides, and `OK` gives the
/// body back. (A body that starts with white space loses it to the trim.)
pub proof fn lemma_reply_is_body_and_status(body: Seq<char>, status: Seq<char>)
    requires
        body.len() == 0 || !is_white_space(body[0]),
        status.len() > 0,
        !is_white_space(status[0]),
        !is_white_space(status.last()),
        last_crlf(status) is None,
    ensures
        parse_reply_spec(body + seq!['\r', '\n'] + status) == parse_status_spec(body, status),
{
    let crlf = seq!['\r', '\n'];
    let r = body + crlf + status;
    assert(r.last() == status.last());
    assert(trim_end(r) == r);
    if body.len() == 0 {
        assert(r =~= crlf + status);
        assert(r.drop_first() =~= seq!['\n'] + status);
        assert(r.drop_first().drop_first() =~= status);
        assert(r[0] == '\r' && is_white_space('\r'));
        assert(r.drop_first()[0] == '\n' && is_white_space('\n'));
        assert(trim_start(status) == status);
        assert(trim_start(r.drop_first()) == trim_start(status));
        assert(trim_start(r) == status);
        assert(trim_end(status) == status);
        assert(body =~= Seq::<char>::empty());
    } else {
        assert(r[0] == body[0]);
        assert(trim_start(r) == r);
        let p = body + crlf;
        assert(last_crlf(p) == Some(body.len() as int));
        lemma_last_crlf_append(p, status);
        assert(r.take(body.len() as int) =~= body);
        assert(r.skip(body.len() as int + 2) =~= status);
    }
}

/// When the controller answers `OK`, the body comes back as it is.
pub proof fn lemma_ok_reply_gives_body(body: Seq<char>)
    requires
        body.len() == 0 || !is_white_space(body[0]),
    ensures
        parse_reply_spec(body + seq!['\r', '\n'] + "OK"@) == Ok::<Seq<char>, CoolmasterErrorView>(body),
{
    reveal_strlit("OK");
    let ok = "OK"@;
    assert(ok =~= seq!['O', 'K']);
    assert(ok.drop_last() =~= seq!['O']);
    assert(last_crlf(ok.drop_last()) is None);
    assert(last_crlf(ok) is None);
    lemma_reply_is_body_and_status(body, ok);
}

/// An address made of a host without `:`, a `:` and a port written in
/// decimal splits back into that host and port.
pub proof fn lemma_host_port_round_trip(host: Seq<char>, port: u16)
    requires
        !host.contains(':'),
    ensures
        split_host_port_spec(host + seq![':'] + decimal_text(port as nat)) == Ok::<
            (Seq<char>, u16),
            CoolmasterErrorView,
        >((host, port)),
{
    let d = decimal_text(port as nat);
    lemma_decimal_text(port as nat);
    lemma_u16_decimal_round_trip(port);
    assert(!d.contains(':')) by {
        if d.contains(':') {
            let i = choose|i: int| 0 <= i < d.len() && d[i] == ':';
            assert(is_digit(d[i]));
        }
    }
    crate::text::lemma_split_on_at_sep(host, ':', d);
    lemma_split_on_without_sep(host, ':');
    lemma_split_on_without_sep(d, ':');
    assert(split_on(host + seq![':'] + d, ':') =~= seq![host, d]);
}

proof fn lemma_trim_start_skips_white_prefix(w: Seq<char>, r: Seq<char>)
    requires
        forall|i: int| 0 <= i < w.len() ==> is_white_space(#[trigger] w[i]),
    ensures
        trim_start(w + r) == trim_start(r),
    decreases w.len(),
{
    if w.len() == 0 {
        assert(w + r =~= r);
    } else {
        assert((w + r)[0] == w[0]);
        assert((w + r).drop_first() =~= w.drop_first() + r);
        assert forall|i: int| 0 <= i < w.drop_first().len() implies is_white_space(
            #[trigger] w.drop_first()[i],
        ) by {
            assert(w.drop_first()[i] == w[i + 1]);
        }
        lemma_trim_start_skips_white_prefix(w.drop_first(), r);
    }
}

proof fn lemma_trim_end_skips_white_suffix(r: Seq<char>, w: Seq<char>)
    requires
        forall|i: int| 0 <= i < w.len() ==> is_white_space(#[trigger] w[i]),
    ensures
        trim_end(r + w) == trim_end(r),
    decreases w.len(),
{
    if w.len() == 0 {
        assert(r + w =~= r);
    } else {
        assert((r + w).last() == w.last());
        assert(is_white_space(w[w.len() - 1]));
        assert((r + w).drop_last() =~= r + w.drop_last());
        assert forall|i: int| 0 <= i < w.drop_last().len() implies is_white_space(
            #[trigger] w.drop_last()[i],
        ) by {
            assert(w.drop_last()[i] == w[i]);
        }
        lemma_trim_end_skips_white_suffix(r, w.drop_last());
    }
}

proof fn lemma_trim_ignores_white_suffix(r: Seq<char>, w: Seq<char>)
    requires
        forall|i: int| 0 <= i < w.len() ==> is_white_space(#[trigger] w[i]),
    ensures
        trim(r + w) == trim(r),
    decreases r.len(),
{
    if r.len() == 0 {
        assert(r + w =~= w);
        lemma_trim_start_skips_white_prefix(w, Seq::<char>::empty());
        assert(w + Seq::<char>::empty() =~= w);
    } else if is_white_space(r[0]) {
        assert((r + w)[0] == r[0]);
        assert((r + w).drop_first() =~= r.drop_first() + w);
        lemma_trim_ignores_white_suffix(r.drop_first(), w);
    } else {
        assert((r + w)[0] == r[0]);
        lemma_trim_end_skips_white_suffix(r, w);
    }
}

/// White space before and after a reply changes nothing of what it gives:
/// the body never starts with the white space in front of it, and the
/// status never ends with the white space after it.
pub proof fn lemma_reply_ignores_surrounding_white_space(
    before: Seq<char>,
    reply: Seq<char>,
    after: Seq<char>,
)
    requires
        forall|i: int| 0 <= i < before.len() ==> is_white_space(#[trigger] before[i]),
        forall|i: int| 0 <= i < after.len() ==> is_white_space(#[trigger] after[i]),
    ensures
        parse_reply_spec(before + reply + after) == parse_reply_spec(reply),
{
    assert(before + reply + after =~= before + (reply + after));
    lemma_trim_start_skips_white_prefix(before, reply + after);
    lemma_trim_ignores_white_suffix(reply, after);
}

/// A reply of a line break, a body, a line break and `OK`, as the
/// controller sends it, gives the body.
pub proof fn lemma_ok_reply_after_line_break_gives_body(body: Seq<char>)
    requires
        body.len() == 0 || !is_white_space(body[0]),
    ensures
        parse_reply_spec(seq!['\r', '\n'] + body + seq!['\r', '\n'] + "OK"@) == Ok::<
            Seq<char>,
            CoolmasterErrorView,
        >(body),
{
    let crlf = seq!['\r', '\n'];
    let reply = body + crlf + "OK"@;
    assert(is_white_space('\r') && is_white_space('\n'));
    assert(crlf + body + crlf + "OK"@ =~= crlf + reply + Seq::<char>::empty());
    lemma_reply_ignores_surrounding_white_space(crlf, reply, Seq::<char>::empty());
    lemma_ok_reply_gives_body(body);
}

/// The status line `OK` or `ERROR: 0` gives the body back; any other
/// status is the controller's error, carrying that status.
pub proof fn lemma_status_decides(body: Seq<char>, status: Seq<char>)
    ensures
        (status == "OK"@ || status == "ERROR: 0"@) ==> parse_status_spec(body, status) == Ok::<
            Seq<char>,
            CoolmasterErrorView,
        >(body),
        !(status == "OK"@ || status == "ERROR: 0"@) ==> parse_status_spec(body, status) == Err::<
            Seq<char>,
            CoolmasterErrorView,
        >(CoolmasterErrorView::CoolmasterCommandError(status)),
{
}

/// Asking for the units' states is `ls2`, alone for all units and
/// followed by the unit for one.
pub proof fn lemma_state_requests_are_ls2(unit: Seq<char>)
    ensures
        command_text(ToCoolmasterMessageView::PublishUnitsState) == "ls2"@,
        command_text(ToCoolmasterMessageView::PublishUnitState(unit)) == "ls2 "@ + unit,
{
}

/// A failed connection attempt is reported, and the worker waits five
/// seconds and tries again; a success is announced and the worker then
/// takes messages.
pub proof fn lemma_connection_attempts()
    ensures
        worker_step(WorkerState::Connecting, WorkerEvent::ConnectFailed) == (
            WorkerState::Connecting,
            seq![WorkerAction::PublishError, WorkerAction::Wait(5)],
        ),
        worker_step(WorkerState::Connecting, WorkerEvent::ConnectSucceeded) == (
            WorkerState::Connected,
            seq![WorkerAction::PublishConnected(true)],
        ),
{
    assert(worker_step(WorkerState::Connecting, WorkerEvent::ConnectFailed).1 =~= seq![
        WorkerAction::PublishError,
        WorkerAction::Wait(5),
    ]);
}

} // verus!
