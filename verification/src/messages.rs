//! The messages that the workers hand each other.
use vstd::prelude::*;

use crate::ac_unit::{FanSpeed, OperationMode, UnitState, UnitStateView};

verus! {

/// A request to the controller worker. A target temperature is carried as
/// the text the controller is sent, which is how `f32`'s `Display` writes
/// the requested value.
#[derive(Debug, Clone)]
pub enum ToCoolmasterMessage {
    PublishUnitState(String),
    PublishUnitsState,
    SetUnitPower(String, bool),
    SetUnitMode(String, OperationMode),
    SetFanSpeed(String, FanSpeed),
    SetTargetTemperature(String, String),
    ResetFilter(String),
}

pub enum ToCoolmasterMessageView {
    PublishUnitState(Seq<char>),
    PublishUnitsState,
    SetUnitPower(Seq<char>, bool),
    SetUnitMode(Seq<char>, OperationMode),
    SetFanSpeed(Seq<char>, FanSpeed),
    SetTargetTemperature(Seq<char>, Seq<char>),
    ResetFilter(Seq<char>),
}

impl View for ToCoolmasterMessage {
    type V = ToCoolmasterMessageView;

    open spec fn view(&self) -> ToCoolmasterMessageView {
        match self {
            ToCoolmasterMessage::PublishUnitState(u) => ToCoolmasterMessageView::PublishUnitState(
                u@,
            ),
            ToCoolmasterMessage::PublishUnitsState => ToCoolmasterMessageView::PublishUnitsState,
            ToCoolmasterMessage::SetUnitPower(u, p) => ToCoolmasterMessageView::SetUnitPower(u@, *p),
            ToCoolmasterMessage::SetUnitMode(u, m) => ToCoolmasterMessageView::SetUnitMode(u@, *m),
            ToCoolmasterMessage::SetFanSpeed(u, f) => ToCoolmasterMessageView::SetFanSpeed(u@, *f),
            ToCoolmasterMessage::SetTargetTemperature(u, t) => ToCoolmasterMessageView::SetTargetTemperature(
                u@,
                t@,
            ),
            ToCoolmasterMessage::ResetFilter(u) => ToCoolmasterMessageView::ResetFilter(u@),
        }
    }
}

/// A request to the MQTT publisher.
#[derive(Debug, Clone)]
pub enum ToMqttPublisherMessage {
    Error(String),
    UnitState(UnitState),
    UnitsState(Vec<UnitState>),
    CoolmasterConnected(bool),
}

pub enum ToMqttPublisherMessageView {
    Error(Seq<char>),
    UnitState(UnitStateView),
    UnitsState(Seq<UnitStateView>),
    CoolmasterConnected(bool),
}

impl View for ToMqttPublisherMessage {
    type V = ToMqttPublisherMessageView;

    open spec fn view(&self) -> ToMqttPublisherMessageView {
        match self {
            ToMqttPublisherMessage::Error(e) => ToMqttPublisherMessageView::Error(e@),
            ToMqttPublisherMessage::UnitState(s) => ToMqttPublisherMessageView::UnitState(s@),
            ToMqttPublisherMessage::UnitsState(v) => ToMqttPublisherMessageView::UnitsState(
                v@.map_values(|s: UnitState| s@),
            ),
            ToMqttPublisherMessage::CoolmasterConnected(c) => ToMqttPublisherMessageView::CoolmasterConnected(
                *c,
            ),
        }
    }
}

} // verus!
