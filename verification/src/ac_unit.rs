//! The state of one air-conditioning unit, as the controller's `ls2`
//! command reports it, one unit per line:
//! `L4.001 OFF 19.0C 23.0C High Heat OK   - 0`.
use vstd::prelude::*;

use crate::error::{view_result, CoolmasterError, CoolmasterErrorView};
use crate::number::{
    decimal_text, is_digit, is_float_literal, is_float_text, lemma_decimal_text,
    lemma_u16_decimal_round_trip, parse_u16, parse_u16_text,
};
use crate::text::{
    chars_of, fields, is_word, lemma_fields_insert_spaces, owned, spaces, split_fields, string_of,
};

verus! {

#[derive(Debug, Clone, Copy, PartialEq, Eq, Structural)]
pub enum FanSpeed {
    VLow,
    Low,
    Medium,
    High,
    Top,
    Auto,
}

#[derive(Debug, Clone, Copy, PartialEq, Eq, Structural)]
pub enum OperationMode {
    Cool,
    Heat,
    Dry,
    Fan,
    Auto,
}

impl View for FanSpeed {
    type V = FanSpeed;

    open spec fn view(&self) -> FanSpeed {
        *self
    }
}

impl View for OperationMode {
    type V = OperationMode;

    open spec fn view(&self) -> OperationMode {
        *self
    }
}

/// The scale a temperature is written in: its last character, `C` or `F`.
#[derive(Debug, Clone, Copy, PartialEq, Eq, Structural)]
pub enum TemperatureScale {
    Celsius,
    Fahrenheit,
}

/// A temperature as the controller writes it: a number that `f32::from_str`
/// accepts, and the scale. Its value in degrees Celsius is a floating-point
/// computation that the caller makes.
#[derive(Debug, Clone)]
pub struct TemperatureReading {
    pub reading: String,
    pub scale: TemperatureScale,
}

pub struct TemperatureReadingView {
    pub reading: Seq<char>,
    pub scale: TemperatureScale,
}

impl View for TemperatureReading {
    type V = TemperatureReadingView;

    open spec fn view(&self) -> TemperatureReadingView {
        TemperatureReadingView { reading: self.reading@, scale: self.scale }
    }
}

#[derive(Debug, Clone)]
pub struct UnitState {
    pub unit: String,
    pub power: bool,
    pub target_temperature: TemperatureReading,
    pub temperature: TemperatureReading,
    pub fan_speed: FanSpeed,
    pub operation_mode: OperationMode,
    pub failure_code: Option<u16>,
    pub filter_change: bool,
    pub demand: bool,
}

pub struct UnitStateView {
    pub unit: Seq<char>,
    pub power: bool,
    pub target_temperature: TemperatureReadingView,
    pub temperature: TemperatureReadingView,
    pub fan_speed: FanSpeed,
    pub operation_mode: OperationMode,
    pub failure_code: Option<u16>,
    pub filter_change: bool,
    pub demand: bool,
}

impl View for UnitState {
    type V = UnitStateView;

    open spec fn view(&self) -> UnitStateView {
        UnitStateView {
            unit: self.unit@,
            power: self.power,
            target_temperature: self.target_temperature@,
            temperature: self.temperature@,
            fan_speed: self.fan_speed,
            operation_mode: self.operation_mode,
            failure_code: self.failure_code,
            filter_change: self.filter_change,
            demand: self.demand,
        }
    }
}

/// The name the controller uses for a fan speed.
pub open spec fn fan_speed_name(f: FanSpeed) -> Seq<char> {
    match f {
        FanSpeed::VLow => "VLow"@,
        FanSpeed::Low => "Low"@,
        FanSpeed::Medium => "Med"@,
        FanSpeed::High => "High"@,
        FanSpeed::Top => "Top"@,
        FanSpeed::Auto => "Auto"@,
    }
}

/// The fan speed a name stands for.
pub open spec fn fan_speed_named(s: Seq<char>) -> Option<FanSpeed> {
    if s == "VLow"@ {
        Some(FanSpeed::VLow)
    } else if s == "Low"@ {
        Some(FanSpeed::Low)
    } else if s == "Med"@ {
        Some(FanSpeed::Medium)
    } else if s == "High"@ {
        Some(FanSpeed::High)
    } else if s == "Top"@ {
        Some(FanSpeed::Top)
    } else if s == "Auto"@ {
        Some(FanSpeed::Auto)
    } else {
        None
    }
}

pub open spec fn parse_fan_speed(s: Seq<char>) -> Result<FanSpeed, CoolmasterErrorView> {
    match fan_speed_named(s) {
        Some(f) => Ok(f),
        None => Err(CoolmasterErrorView::InvalidUnitState("Invalid fan speed"@, s)),
    }
}

/// The operation mode a name stands for.
pub open spec fn operation_mode_named(s: Seq<char>) -> Option<OperationMode> {
    if s == "Cool"@ {
        Some(OperationMode::Cool)
    } else if s == "Heat"@ {
        Some(OperationMode::Heat)
    } else if s == "Dry"@ {
        Some(OperationMode::Dry)
    } else if s == "Fan"@ {
        Some(OperationMode::Fan)
    } else if s == "Auto"@ {
        Some(OperationMode::Auto)
    } else {
        None
    }
}

pub open spec fn parse_operation_mode(s: Seq<char>) -> Result<OperationMode, CoolmasterErrorView> {
    match operation_mode_named(s) {
        Some(m) => Ok(m),
        None => Err(CoolmasterErrorView::InvalidUnitState("Invalid operation mode"@, s)),
    }
}

/// A temperature field: a number and then `C` or `F`.
pub open spec fn parse_temperature_field(t: Seq<char>) -> Result<
    TemperatureReadingView,
    CoolmasterErrorView,
> {
    let number = t.drop_last();
    if t.len() == 0 || !is_float_text(number) {
        Err(CoolmasterErrorView::InvalidTemperature(t))
    } else if t.last() == 'C' {
        Ok(TemperatureReadingView { reading: number, scale: TemperatureScale::Celsius })
    } else if t.last() == 'F' {
        Ok(TemperatureReadingView { reading: number, scale: TemperatureScale::Fahrenheit })
    } else {
        Err(CoolmasterErrorView::InvalidTemperature(t))
    }
}

/// Cutting the unit character off a temperature field is a byte slice; it
/// panics where that character takes more than one byte.
pub open spec fn cut_panics(t: Seq<char>) -> bool {
    t.len() > 0 && (t.last() as u32) >= 128
}

pub open spec fn power_named(s: Seq<char>) -> Option<bool> {
    if s == "ON"@ {
        Some(true)
    } else if s == "OFF"@ {
        Some(false)
    } else {
        None
    }
}

/// The failure code field: `OK`, or a code.
pub open spec fn failure_code_named(s: Seq<char>) -> Option<Option<u16>> {
    if s == "OK"@ {
        Some(None)
    } else {
        match parse_u16(s) {
            Some(v) => Some(Some(v)),
            None => None,
        }
    }
}

pub open spec fn filter_change_named(s: Seq<char>) -> Option<bool> {
    if s == "-"@ {
        Some(false)
    } else if s == "#"@ {
        Some(true)
    } else {
        None
    }
}

pub open spec fn demand_named(s: Seq<char>) -> Option<bool> {
    if s == "0"@ {
        Some(false)
    } else if s == "1"@ {
        Some(true)
    } else {
        None
    }
}

pub open spec fn line_error(message: Seq<char>, line: Seq<char>) -> CoolmasterErrorView {
    CoolmasterErrorView::InvalidUnitState(message, line)
}

/// What a state line gives: its nine fields checked in order, the first
/// failing check deciding the error.
pub open spec fn parse_unit_state(line: Seq<char>) -> Result<UnitStateView, CoolmasterErrorView> {
    let f = fields(line);
    if f.len() != 9 {
        Err(line_error("Wrong number of fields"@, line))
    } else {
        match power_named(f[1]) {
            None => Err(line_error("Invalid power state"@, line)),
            Some(power) => match parse_temperature_field(f[2]) {
                Err(e) => Err(e),
                Ok(target_temperature) => match parse_temperature_field(f[3]) {
                    Err(e) => Err(e),
                    Ok(temperature) => match parse_fan_speed(f[4]) {
                        Err(e) => Err(e),
                        Ok(fan_speed) => match parse_operation_mode(f[5]) {
                            Err(e) => Err(e),
                            Ok(operation_mode) => match failure_code_named(f[6]) {
                                None => Err(line_error("Invalid failure code"@, line)),
                                Some(failure_code) => match filter_change_named(f[7]) {
                                    None => Err(line_error("Invalid filter change state"@, line)),
                                    Some(filter_change) => match demand_named(f[8]) {
                                        None => Err(line_error("Invalid demand state"@, line)),
                                        Some(demand) => Ok(
                                            UnitStateView {
                                                unit: f[0],
                                                power,
                                                target_temperature,
                                                temperature,
                                                fan_speed,
                                                operation_mode,
                                                failure_code,
                                                filter_change,
                                                demand,
                                            },
                                        ),
                                    },
                                },
                            },
                        },
                    },
                },
            },
        }
    }
}

/// Whether parsing the line reaches a temperature field whose unit
/// character cannot be cut off (see `cut_panics`).
pub open spec fn parse_unit_state_panics(line: Seq<char>) -> bool {
    let f = fields(line);
    &&& f.len() == 9
    &&& power_named(f[1]) is Some
    &&& (cut_panics(f[2]) || (parse_temperature_field(f[2]) is Ok && cut_panics(f[3])))
}

impl FanSpeed {
    pub fn from_str(s: &str) -> (r: Result<FanSpeed, CoolmasterError>)
        ensures
            view_result(r) == parse_fan_speed(s@),
    {
        let cs = chars_of(s);
        fan_speed_from_chars(&cs)
    }

    /// The name the controller uses for the fan speed.
    pub fn to_string(&self) -> (s: String)
        ensures
            s@ == fan_speed_name(*self),
    {
        match self {
            FanSpeed::VLow => owned("VLow"),
            FanSpeed::Low => owned("Low"),
            FanSpeed::Medium => owned("Med"),
            FanSpeed::High => owned("High"),
            FanSpeed::Top => owned("Top"),
            FanSpeed::Auto => owned("Auto"),
        }
    }
}

fn fan_speed_from_chars(t: &[char]) -> (r: Result<FanSpeed, CoolmasterError>)
    ensures
        view_result(r) == parse_fan_speed(t@),
{
    if is_word(t, "VLow") {
        Ok(FanSpeed::VLow)
    } else if is_word(t, "Low") {
        Ok(FanSpeed::Low)
    } else if is_word(t, "Med") {
        Ok(FanSpeed::Medium)
    } else if is_word(t, "High") {
        Ok(FanSpeed::High)
    } else if is_word(t, "Top") {
        Ok(FanSpeed::Top)
    } else if is_word(t, "Auto") {
        Ok(FanSpeed::Auto)
    } else {
        Err(CoolmasterError::InvalidUnitState("Invalid fan speed", string_of(t)))
    }
}

impl OperationMode {
    pub fn from_str(s: &str) -> (r: Result<OperationMode, CoolmasterError>)
        ensures
            view_result(r) == parse_operation_mode(s@),
    {
        let cs = chars_of(s);
        operation_mode_from_chars(&cs)
    }
}

fn operation_mode_from_chars(t: &[char]) -> (r: Result<OperationMode, CoolmasterError>)
    ensures
        view_result(r) == parse_operation_mode(t@),
{
    if is_word(t, "Cool") {
        Ok(OperationMode::Cool)
    } else if is_word(t, "Heat") {
        Ok(OperationMode::Heat)
    } else if is_word(t, "Dry") {
        Ok(OperationMode::Dry)
    } else if is_word(t, "Fan") {
        Ok(OperationMode::Fan)
    } else if is_word(t, "Auto") {
        Ok(OperationMode::Auto)
    } else {
        Err(CoolmasterError::InvalidUnitState("Invalid operation mode", string_of(t)))
    }
}

fn line_err(message: &'static str, line: &[char]) -> (e: CoolmasterError)
    ensures
        e@ == line_error(message@, line@),
{
    CoolmasterError::InvalidUnitState(message, string_of(line))
}

impl UnitState {
    /// Parses one line of the controller's `ls2` reply.
    pub fn from_str(state_line: &str) -> (r: Result<UnitState, CoolmasterError>)
        requires
            !parse_unit_state_panics(state_line@),
        ensures
            view_result(r) == parse_unit_state(state_line@),
    {
        let cs = chars_of(state_line);
        UnitState::from_chars(&cs)
    }

    /// Whether `from_str` would reach a temperature field whose unit
    /// character cannot be cut off.
    pub fn from_str_panics(state_line: &str) -> (b: bool)
        ensures
            b == parse_unit_state_panics(state_line@),
    {
        let cs = chars_of(state_line);
        UnitState::line_panics(&cs)
    }

    pub(crate) fn line_panics(cs: &[char]) -> (b: bool)
        ensures
            b == parse_unit_state_panics(cs@),
    {
        let f = split_fields(cs);
        let ghost fv = f@.map_values(|t: Vec<char>| t@);
        assert(fv == fields(cs@));
        if f.len() != 9 {
            return false;
        }
        assert(fv[1] == f[1]@ && fv[2] == f[2]@ && fv[3] == f[3]@);
        if !(is_word(&f[1], "ON") || is_word(&f[1], "OFF")) {
            return false;
        }
        if cuts_badly(&f[2]) {
            return true;
        }
        match UnitState::temperature_from_chars(&f[2]) {
            Ok(_) => cuts_badly(&f[3]),
            Err(_) => false,
        }
    }

    pub(crate) fn from_chars(line: &[char]) -> (r: Result<UnitState, CoolmasterError>)
        requires
            !parse_unit_state_panics(line@),
        ensures
            view_result(r) == parse_unit_state(line@),
    {
        let f = split_fields(line);
        let ghost fv = f@.map_values(|t: Vec<char>| t@);
        assert(fv == fields(line@));
        if f.len() != 9 {
            return Err(line_err("Wrong number of fields", line));
        }
        assert(fv[0] == f[0]@ && fv[1] == f[1]@ && fv[2] == f[2]@ && fv[3] == f[3]@ && fv[4]
            == f[4]@ && fv[5] == f[5]@ && fv[6] == f[6]@ && fv[7] == f[7]@ && fv[8] == f[8]@);
        let unit = string_of(&f[0]);
        let power = if is_word(&f[1], "ON") {
            true
        } else if is_word(&f[1], "OFF") {
            false
        } else {
            return Err(line_err("Invalid power state", line));
        };
        let target_temperature = match UnitState::temperature_from_chars(&f[2]) {
            Ok(t) => t,
            Err(e) => return Err(e),
        };
        let temperature = match UnitState::temperature_from_chars(&f[3]) {
            Ok(t) => t,
            Err(e) => return Err(e),
        };
        let fan_speed = match fan_speed_from_chars(&f[4]) {
            Ok(s) => s,
            Err(e) => return Err(e),
        };
        let operation_mode = match operation_mode_from_chars(&f[5]) {
            Ok(m) => m,
            Err(e) => return Err(e),
        };
        let failure_code = if is_word(&f[6], "OK") {
            None
        } else {
            match parse_u16_text(&f[6]) {
                Some(v) => Some(v),
                None => return Err(line_err("Invalid failure code", line)),
            }
        };
        let filter_change = if is_word(&f[7], "-") {
            false
        } else if is_word(&f[7], "#") {
            true
        } else {
            return Err(line_err("Invalid filter change state", line));
        };
        let demand = if is_word(&f[8], "0") {
            false
        } else if is_word(&f[8], "1") {
            true
        } else {
            return Err(line_err("Invalid demand state", line));
        };
        Ok(
            UnitState {
                unit,
                power,
                target_temperature,
                temperature,
                fan_speed,
                operation_mode,
                failure_code,
                filter_change,
                demand,
            },
        )
    }

    /// Reads a temperature field: the number before the last character, and
    /// that character as the scale.
    pub fn parse_temperature(temperature: &str) -> (r: Result<TemperatureReading, CoolmasterError>)
        requires
            !cut_panics(temperature@),
        ensures
            view_result(r) == parse_temperature_field(temperature@),
    {
        let cs = chars_of(temperature);
        UnitState::temperature_from_chars(&cs)
    }

    fn temperature_from_chars(temperature: &[char]) -> (r: Result<TemperatureReading, CoolmasterError>)
        requires
            !cut_panics(temperature@),
        ensures
            view_result(r) == parse_temperature_field(temperature@),
    {
        if temperature.len() == 0 {
            return Err(CoolmasterError::InvalidTemperature(string_of(temperature)));
        }
        let unit = temperature[temperature.len() - 1];
        let mut number: Vec<char> = Vec::new();
        let mut i: usize = 0;
        while i + 1 < temperature.len()
            invariant
                0 < temperature.len(),
                i + 1 <= temperature.len(),
                number@ == temperature@.take(i as int),
            decreases temperature.len() - i,
        {
            number.push(temperature[i]);
            i = i + 1;
            assert(number@ =~= temperature@.take(i as int));
        }
        assert(number@ =~= temperature@.drop_last());
        if !is_float_literal(&number) {
            return Err(CoolmasterError::InvalidTemperature(string_of(temperature)));
        }
        let scale = if unit == 'C' {
            TemperatureScale::Celsius
        } else if unit == 'F' {
            TemperatureScale::Fahrenheit
        } else {
            return Err(CoolmasterError::InvalidTemperature(string_of(temperature)));
        };
        Ok(TemperatureReading { reading: string_of(&number), scale })
    }
}

/// Whether the field's last character takes more than one byte.
fn cuts_badly(t: &[char]) -> (b: bool)
    ensures
        b == cut_panics(t@),
{
    t.len() > 0 && (t[t.len() - 1] as u32) >= 128
}

/// Reading back the name of a fan speed gives the same fan speed.
pub proof fn lemma_fan_speed_name_round_trip(f: FanSpeed)
    ensures
        parse_fan_speed(fan_speed_name(f)) == Ok::<FanSpeed, CoolmasterErrorView>(f),
        fan_speed_name(f) == match f {
            FanSpeed::VLow => "VLow"@,
            FanSpeed::Low => "Low"@,
            FanSpeed::Medium => "Med"@,
            FanSpeed::High => "High"@,
            FanSpeed::Top => "Top"@,
            FanSpeed::Auto => "Auto"@,
        },
{
    reveal_strlit("VLow");
    reveal_strlit("Low");
    reveal_strlit("Med");
    reveal_strlit("High");
    reveal_strlit("Top");
    reveal_strlit("Auto");
    let n = fan_speed_name(f);
    match f {
        FanSpeed::VLow => {},
        FanSpeed::Low => {
            assert(n[0] != "VLow"@[0]);
        },
        FanSpeed::Medium => {
            assert(n.len() != "VLow"@.len());
            assert(n[0] != "Low"@[0]);
        },
        FanSpeed::High => {
            assert(n[0] != "VLow"@[0]);
            assert(n.len() != "Low"@.len());
            assert(n.len() != "Med"@.len());
        },
        FanSpeed::Top => {
            assert(n.len() != "VLow"@.len());
            assert(n[0] != "Low"@[0]);
            assert(n[0] != "Med"@[0]);
            assert(n.len() != "High"@.len());
        },
        FanSpeed::Auto => {
            assert(n[0] != "VLow"@[0]);
            assert(n.len() != "Low"@.len());
            assert(n.len() != "Med"@.len());
            assert(n[0] != "High"@[0]);
            assert(n.len() != "Top"@.len());
        },
    }
}

/// Spaces added to a state line at its start, at its end, or next to a
/// space it already has, change nothing of what it parses to: the same
/// lines parse, to the same state, and the same lines panic. (Errors that
/// quote the whole line quote it with the spaces.)
pub proof fn lemma_extra_spaces_keep_state(line: Seq<char>, i: int, k: nat)
    requires
        0 <= i <= line.len(),
        i == 0 || i == line.len() || line[i - 1] == ' ' || line[i] == ' ',
    ensures
        parse_unit_state(line.take(i) + spaces(k) + line.skip(i)) is Ok == parse_unit_state(
            line,
        ) is Ok,
        parse_unit_state(line) matches Ok(u) ==> parse_unit_state(
            line.take(i) + spaces(k) + line.skip(i),
        ) == Ok::<UnitStateView, CoolmasterErrorView>(u),
        parse_unit_state_panics(line.take(i) + spaces(k) + line.skip(i))
            == parse_unit_state_panics(line),
{
    lemma_fields_insert_spaces(line, i, k);
}

proof fn lemma_temperature_field_reads_back(t: Seq<char>)
    requires
        parse_temperature_field(t) is Ok,
    ensures
        t == parse_temperature_field(t)->Ok_0.reading.push(
            if parse_temperature_field(t)->Ok_0.scale == TemperatureScale::Celsius {
                'C'
            } else {
                'F'
            },
        ),
{
    assert(t =~= t.drop_last().push(t.last()));
}

/// A parsed state line says back each of its nine fields: the unit is the
/// first field, `ON`/`OFF` the power, each temperature its number followed
/// by `C` or `F` as its scale, the fan speed and mode their names, `OK` no
/// failure code and a code what the field reads as, `#`/`-` the filter
/// flag, `1`/`0` the demand.
pub proof fn lemma_parsed_state_reads_back(line: Seq<char>)
    requires
        parse_unit_state(line) is Ok,
    ensures
        ({
            let f = fields(line);
            let u = parse_unit_state(line)->Ok_0;
            &&& f.len() == 9
            &&& u.unit == f[0]
            &&& f[1] == (if u.power {
                "ON"@
            } else {
                "OFF"@
            })
            &&& f[2] == u.target_temperature.reading.push(
                if u.target_temperature.scale == TemperatureScale::Celsius {
                    'C'
                } else {
                    'F'
                },
            )
            &&& f[3] == u.temperature.reading.push(
                if u.temperature.scale == TemperatureScale::Celsius {
                    'C'
                } else {
                    'F'
                },
            )
            &&& f[4] == match u.fan_speed {
                FanSpeed::VLow => "VLow"@,
                FanSpeed::Low => "Low"@,
                FanSpeed::Medium => "Med"@,
                FanSpeed::High => "High"@,
                FanSpeed::Top => "Top"@,
                FanSpeed::Auto => "Auto"@,
            }
            &&& f[5] == match u.operation_mode {
                OperationMode::Cool => "Cool"@,
                OperationMode::Heat => "Heat"@,
                OperationMode::Dry => "Dry"@,
                OperationMode::Fan => "Fan"@,
                OperationMode::Auto => "Auto"@,
            }
            &&& (u.failure_code is None <==> f[6] == "OK"@)
            &&& (u.failure_code matches Some(c) ==> parse_u16(f[6]) == Some(c))
            &&& f[7] == (if u.filter_change {
                "#"@
            } else {
                "-"@
            })
            &&& f[8] == (if u.demand {
                "1"@
            } else {
                "0"@
            })
        }),
{
    let f = fields(line);
    lemma_temperature_field_reads_back(f[2]);
    lemma_temperature_field_reads_back(f[3]);
}

/// A line whose nine fields write out a state, as the controller writes
/// it, parses to that state: the unit, `ON`/`OFF`, each temperature as a
/// number `f32` reads followed by `C` or `F`, the fan speed's and the
/// mode's names, `OK` or the failure code in decimal, `#`/`-`, `1`/`0`.
pub proof fn lemma_written_state_parses(line: Seq<char>, u: UnitStateView)
    requires
        is_float_text(u.target_temperature.reading),
        is_float_text(u.temperature.reading),
        fields(line) == seq![
            u.unit,
            if u.power {
                "ON"@
            } else {
                "OFF"@
            },
            u.target_temperature.reading.push(
                if u.target_temperature.scale == TemperatureScale::Celsius {
                    'C'
                } else {
                    'F'
                },
            ),
            u.temperature.reading.push(
                if u.temperature.scale == TemperatureScale::Celsius {
                    'C'
                } else {
                    'F'
                },
            ),
            match u.fan_speed {
                FanSpeed::VLow => "VLow"@,
                FanSpeed::Low => "Low"@,
                FanSpeed::Medium => "Med"@,
                FanSpeed::High => "High"@,
                FanSpeed::Top => "Top"@,
                FanSpeed::Auto => "Auto"@,
            },
            match u.operation_mode {
                OperationMode::Cool => "Cool"@,
                OperationMode::Heat => "Heat"@,
                OperationMode::Dry => "Dry"@,
                OperationMode::Fan => "Fan"@,
                OperationMode::Auto => "Auto"@,
            },
            match u.failure_code {
                None => "OK"@,
                Some(c) => decimal_text(c as nat),
            },
            if u.filter_change {
                "#"@
            } else {
                "-"@
            },
            if u.demand {
                "1"@
            } else {
                "0"@
            },
        ],
    ensures
        parse_unit_state(line) == Ok::<UnitStateView, CoolmasterErrorView>(u),
{
    reveal_strlit("ON");
    reveal_strlit("OFF");
    reveal_strlit("Cool");
    reveal_strlit("Heat");
    reveal_strlit("Dry");
    reveal_strlit("Fan");
    reveal_strlit("Auto");
    reveal_strlit("OK");
    reveal_strlit("#");
    reveal_strlit("-");
    reveal_strlit("1");
    reveal_strlit("0");
    let f = fields(line);
    lemma_fan_speed_name_round_trip(u.fan_speed);
    assert(f[4] == fan_speed_name(u.fan_speed));
    let t1 = u.target_temperature.reading.push(
        if u.target_temperature.scale == TemperatureScale::Celsius {
            'C'
        } else {
            'F'
        },
    );
    let t2 = u.temperature.reading.push(
        if u.temperature.scale == TemperatureScale::Celsius {
            'C'
        } else {
            'F'
        },
    );
    assert(t1.drop_last() =~= u.target_temperature.reading);
    assert(t2.drop_last() =~= u.temperature.reading);
    match u.operation_mode {
        OperationMode::Cool => {},
        OperationMode::Heat => {
            assert(f[5][0] != "Cool"@[0]);
        },
        OperationMode::Dry => {
            assert(f[5].len() != "Cool"@.len());
            assert(f[5].len() != "Heat"@.len());
        },
        OperationMode::Fan => {
            assert(f[5].len() != "Cool"@.len());
            assert(f[5].len() != "Heat"@.len());
            assert(f[5][0] != "Dry"@[0]);
        },
        OperationMode::Auto => {
            assert(f[5][0] != "Cool"@[0]);
            assert(f[5][0] != "Heat"@[0]);
            assert(f[5].len() != "Dry"@.len());
            assert(f[5].len() != "Fan"@.len());
        },
    }
    match u.failure_code {
        None => {},
        Some(c) => {
            lemma_u16_decimal_round_trip(c);
            lemma_decimal_text(c as nat);
            assert(is_digit(f[6][0]));
            assert(f[6][0] != "OK"@[0]);
        },
    }
    if !u.power {
        assert(f[1].len() != "ON"@.len());
    }
    if !u.filter_change {
        assert(f[7][0] != "#"@[0]);
    }
    if !u.demand {
        assert(f[8][0] != "1"@[0]);
    }
}

} // verus!
