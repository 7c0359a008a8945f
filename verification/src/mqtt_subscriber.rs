//! The commands that arrive over MQTT, and the requests to the controller
//! worker that carry them out.
use vstd::prelude::*;

use crate::ac_unit::{FanSpeed, OperationMode};
use crate::coolmaster::command_text;
use crate::messages::{ToCoolmasterMessage, ToCoolmasterMessageView};
use crate::text::owned;

verus! {

/// One action on a unit. A target temperature is the text the controller
/// is sent for the requested value.
#[derive(Debug, Clone)]
pub enum Action {
    SetPower { power: bool },
    TargetTemperature { temperature: String },
    SetMode { mode: OperationMode },
    SetFanSpeed { fan_speed: FanSpeed },
    ResetFilter,
}

pub enum ActionView {
    SetPower { power: bool },
    TargetTemperature { temperature: Seq<char> },
    SetMode { mode: OperationMode },
    SetFanSpeed { fan_speed: FanSpeed },
    ResetFilter,
}

impl View for Action {
    type V = ActionView;

    open spec fn view(&self) -> ActionView {
        match self {
            Action::SetPower { power } => ActionView::SetPower { power: *power },
            Action::TargetTemperature { temperature } => ActionView::TargetTemperature {
                temperature: temperature@,
            },
            Action::SetMode { mode } => ActionView::SetMode { mode: *mode },
            Action::SetFanSpeed { fan_speed } => ActionView::SetFanSpeed { fan_speed: *fan_speed },
            Action::ResetFilter => ActionView::ResetFilter,
        }
    }
}

/// One action, or several in order.
#[derive(Debug, Clone)]
pub enum Operation {
    Action(Action),
    ActionList(Vec<Action>),
}

/// A command: what to do to which unit.
#[derive(Debug, Clone)]
pub struct Command {
    pub unit: String,
    pub operation: Operation,
}

/// The actions of an operation, in order.
pub open spec fn operation_actions(o: Operation) -> Seq<ActionView> {
    match o {
        Operation::Action(a) => seq![a@],
        Operation::ActionList(v) => v@.map_values(|a: Action| a@),
    }
}

/// The request that carries out an action on a unit.
pub open spec fn action_message(unit: Seq<char>, a: ActionView) -> ToCoolmasterMessageView {
    match a {
        ActionView::SetPower { power } => ToCoolmasterMessageView::SetUnitPower(unit, power),
        ActionView::TargetTemperature { temperature } => ToCoolmasterMessageView::SetTargetTemperature(
            unit,
            temperature,
        ),
        ActionView::SetMode { mode } => ToCoolmasterMessageView::SetUnitMode(unit, mode),
        ActionView::SetFanSpeed { fan_speed } => ToCoolmasterMessageView::SetFanSpeed(
            unit,
            fan_speed,
        ),
        ActionView::ResetFilter => ToCoolmasterMessageView::ResetFilter(unit),
    }
}

/// The requests for a command: one per action, in order, and then one that
/// asks for the unit's state to be published.
pub open spec fn command_messages_spec(unit: Seq<char>, actions: Seq<ActionView>) -> Seq<
    ToCoolmasterMessageView,
> {
    actions.map_values(|a: ActionView| action_message(unit, a)).push(
        ToCoolmasterMessageView::PublishUnitState(unit),
    )
}

/// The request that carries out an action on a unit.
pub fn get_coolmaster_message_from_action(unit: &str, action: &Action) -> (m: ToCoolmasterMessage)
    ensures
        m@ == action_message(unit@, action@),
{
    let unit = owned(unit);
    match action {
        Action::SetPower { power } => ToCoolmasterMessage::SetUnitPower(unit, *power),
        Action::TargetTemperature { temperature } => ToCoolmasterMessage::SetTargetTemperature(
            unit,
            temperature.clone(),
        ),
        Action::SetMode { mode } => ToCoolmasterMessage::SetUnitMode(unit, *mode),
        Action::SetFanSpeed { fan_speed } => ToCoolmasterMessage::SetFanSpeed(unit, *fan_speed),
        Action::ResetFilter => ToCoolmasterMessage::ResetFilter(unit),
    }
}

/// The requests that carry out a command, in the order they are sent.
pub fn command_messages(command: &Command) -> (ms: Vec<ToCoolmasterMessage>)
    ensures
        ms@.map_values(|m: ToCoolmasterMessage| m@) == command_messages_spec(
            command.unit@,
            operation_actions(command.operation),
        ),
{
    let unit = command.unit.as_str();
    let mut ms: Vec<ToCoolmasterMessage> = Vec::new();
    let ghost actions = operation_actions(command.operation);
    match &command.operation {
        Operation::Action(a) => {
            ms.push(get_coolmaster_message_from_action(unit, a));
            assert(ms@.map_values(|m: ToCoolmasterMessage| m@) =~= actions.map_values(
                |a: ActionView| action_message(unit@, a),
            ));
        },
        Operation::ActionList(list) => {
            let mut i: usize = 0;
            while i < list.len()
                invariant
                    i <= list.len(),
                    actions == list@.map_values(|a: Action| a@),
                    unit@ == command.unit@,
                    ms@.map_values(|m: ToCoolmasterMessage| m@) == actions.take(i as int).map_values(
                        |a: ActionView| action_message(unit@, a),
                    ),
                decreases list.len() - i,
            {
                let ghost before = ms@.map_values(|m: ToCoolmasterMessage| m@);
                let m = get_coolmaster_message_from_action(unit, &list[i]);
                ms.push(m);
                proof {
                    assert(actions[i as int] == list[i as int]@);
                    assert(ms@.map_values(|m: ToCoolmasterMessage| m@) =~= before.push(m@));
                    assert(actions.take(i + 1).map_values(|a: ActionView| action_message(unit@, a))
                        =~= actions.take(i as int).map_values(
                        |a: ActionView| action_message(unit@, a),
                    ).push(action_message(unit@, actions[i as int])));
                }
                i = i + 1;
            }
            assert(actions.take(i as int) =~= actions);
        },
    }
    let ghost before = ms@.map_values(|m: ToCoolmasterMessage| m@);
    let u = owned(unit);
    ms.push(ToCoolmasterMessage::PublishUnitState(u));
    assert(ms@.map_values(|m: ToCoolmasterMessage| m@) =~= before.push(
        ToCoolmasterMessageView::PublishUnitState(command.unit@),
    ));
    ms
}

/// A command is carried out by one request per action, in order, and ends
/// with a request to publish the unit's state.
pub proof fn lemma_command_ends_with_state_request(unit: Seq<char>, actions: Seq<ActionView>)
    ensures
        command_messages_spec(unit, actions).len() == actions.len() + 1,
        command_messages_spec(unit, actions).last() == ToCoolmasterMessageView::PublishUnitState(unit),
        forall|i: int|
            0 <= i < actions.len() ==> #[trigger] command_messages_spec(unit, actions)[i]
                == action_message(unit, actions[i]),
{
}

/// The controller is sent, for a command, the command of each action in
/// order and then `ls2` for the unit: `on`/`off` for the power, the mode's
/// own word for a mode, `fspeed` with the speed's letter, `temp` with the
/// requested value, `filt` to reset the filter.
pub proof fn lemma_command_is_sent_as_actions(unit: Seq<char>, actions: Seq<ActionView>)
    ensures
        forall|i: int|
            0 <= i < actions.len() ==> command_text(
                #[trigger] command_messages_spec(unit, actions)[i],
            ) == match actions[i] {
                ActionView::SetPower { power } => (if power {
                    "on "@
                } else {
                    "off "@
                }) + unit,
                ActionView::TargetTemperature { temperature } => "temp "@ + unit + " "@ + temperature,
                ActionView::SetMode { mode } => (match mode {
                    OperationMode::Cool => "cool"@,
                    OperationMode::Heat => "heat"@,
                    OperationMode::Dry => "dry"@,
                    OperationMode::Fan => "fan"@,
                    OperationMode::Auto => "auto"@,
                }) + " "@ + unit,
                ActionView::SetFanSpeed { fan_speed } => "fspeed "@ + unit + " "@ + (match fan_speed {
                    FanSpeed::VLow => "v"@,
                    FanSpeed::Low => "l"@,
                    FanSpeed::Medium => "m"@,
                    FanSpeed::High => "h"@,
                    FanSpeed::Top => "t"@,
                    FanSpeed::Auto => "a"@,
                }),
                ActionView::ResetFilter => "filt "@ + unit,
            },
        command_text(command_messages_spec(unit, actions).last()) == "ls2 "@ + unit,
{
}

} // verus!
