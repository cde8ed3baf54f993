//! The vocabulary of the `METEO` module and the messages a gateway exchanges
//! with it.
//!
//! A request is `METEO,GET_<KIND>,<sensor-id>`. A reply is either
//! `METEO,<KIND>_REPLY,<sensor-id>,<value>` or `METEO,RET_VAL,<int>`. The
//! measured value travels as decimal text; this module hands the text on as
//! it arrived and leaves its reading as a number to the caller.

use vstd::prelude::*;
use vstd::string::StringSliceAdditionalSpecFns;
use crate::text::{
    append, decimal, eq_bytes, field, first_field, parse_i32, parse_u32, parsed_i32, parsed_u32,
    push_decimal, split_first, COMMA,
};

verus! {

/// The four kinds of measurement.
#[derive(Clone, Copy, Debug, PartialEq, Eq, Structural)]
pub enum SensorTypeEnum {
    Pressure,
    Temperature,
    Humidity,
    LightLevel,
}

/// The name under which the meteo module is addressed: `METEO`.
pub open spec fn module_name() -> Seq<u8> {
    "METEO".spec_bytes()
}

/// The verb that asks for a measurement of `kind`.
pub open spec fn request_verb(kind: SensorTypeEnum) -> Seq<u8> {
    match kind {
        SensorTypeEnum::Pressure => "GET_PRESSURE".spec_bytes(),
        SensorTypeEnum::Temperature => "GET_TEMPERATURE".spec_bytes(),
        SensorTypeEnum::Humidity => "GET_HUMIDITY".spec_bytes(),
        SensorTypeEnum::LightLevel => "GET_LIGHT_LEVEL".spec_bytes(),
    }
}

/// The verb that answers with a measurement of `kind`.
pub open spec fn reply_verb(kind: SensorTypeEnum) -> Seq<u8> {
    match kind {
        SensorTypeEnum::Pressure => "PRESSURE_REPLY".spec_bytes(),
        SensorTypeEnum::Temperature => "TEMPERATURE_REPLY".spec_bytes(),
        SensorTypeEnum::Humidity => "HUMIDITY_REPLY".spec_bytes(),
        SensorTypeEnum::LightLevel => "LIGHT_LEVEL_REPLY".spec_bytes(),
    }
}

/// The verb of the generic return-value reply: `RET_VAL`.
pub open spec fn ret_val_verb() -> Seq<u8> {
    "RET_VAL".spec_bytes()
}

/// The canonical lowercase name of a kind, as URLs and records spell it.
pub open spec fn kind_name(kind: SensorTypeEnum) -> Seq<u8> {
    match kind {
        SensorTypeEnum::Pressure => "pressure".spec_bytes(),
        SensorTypeEnum::Temperature => "temperature".spec_bytes(),
        SensorTypeEnum::Humidity => "humidity".spec_bytes(),
        SensorTypeEnum::LightLevel => "light_level".spec_bytes(),
    }
}

/// The kind that a canonical name stands for, if it is one of the four.
pub open spec fn kind_named(name: Seq<u8>) -> Option<SensorTypeEnum> {
    if name == kind_name(SensorTypeEnum::Pressure) {
        Some(SensorTypeEnum::Pressure)
    } else if name == kind_name(SensorTypeEnum::Temperature) {
        Some(SensorTypeEnum::Temperature)
    } else if name == kind_name(SensorTypeEnum::Humidity) {
        Some(SensorTypeEnum::Humidity)
    } else if name == kind_name(SensorTypeEnum::LightLevel) {
        Some(SensorTypeEnum::LightLevel)
    } else {
        None
    }
}

/// The number under which a kind is stored in a record.
pub open spec fn kind_code(kind: SensorTypeEnum) -> i32 {
    match kind {
        SensorTypeEnum::Pressure => 0,
        SensorTypeEnum::Temperature => 1,
        SensorTypeEnum::Humidity => 2,
        SensorTypeEnum::LightLevel => 3,
    }
}

/// A name that is no measurement kind.
#[derive(Clone, Copy, Debug, PartialEq, Eq, Structural)]
pub struct MeteoError;

impl SensorTypeEnum {
    /// The canonical lowercase name of the kind.
    pub fn as_ref(&self) -> (name: &'static str)
        ensures
            name.spec_bytes() == kind_name(*self),
    {
        match self {
            SensorTypeEnum::Pressure => "pressure",
            SensorTypeEnum::Temperature => "temperature",
            SensorTypeEnum::Humidity => "humidity",
            SensorTypeEnum::LightLevel => "light_level",
        }
    }

    /// The kind that a canonical name stands for.
    pub fn try_from(sensor_type_str: &str) -> (res: Result<SensorTypeEnum, MeteoError>)
        ensures
            match kind_named(sensor_type_str.spec_bytes()) {
                Some(kind) => res == Ok::<SensorTypeEnum, MeteoError>(kind),
                None => res is Err,
            },
    {
        let name = sensor_type_str.as_bytes();
        if eq_bytes(name, "pressure".as_bytes()) {
            Ok(SensorTypeEnum::Pressure)
        } else if eq_bytes(name, "temperature".as_bytes()) {
            Ok(SensorTypeEnum::Temperature)
        } else if eq_bytes(name, "humidity".as_bytes()) {
            Ok(SensorTypeEnum::Humidity)
        } else if eq_bytes(name, "light_level".as_bytes()) {
            Ok(SensorTypeEnum::LightLevel)
        } else {
            Err(MeteoError)
        }
    }

    /// The number under which the kind is stored in a record.
    pub fn code(&self) -> (code: i32)
        ensures
            code == kind_code(*self),
    {
        match self {
            SensorTypeEnum::Pressure => 0,
            SensorTypeEnum::Temperature => 1,
            SensorTypeEnum::Humidity => 2,
            SensorTypeEnum::LightLevel => 3,
        }
    }

    /// The kind stored under a number, if the number is one of the four.
    pub fn from_code(code: i32) -> (res: Result<SensorTypeEnum, MeteoError>)
        ensures
            match res {
                Ok(kind) => kind_code(kind) == code,
                Err(_) => code < 0 || code > 3,
            },
    {
        if code == 0 {
            Ok(SensorTypeEnum::Pressure)
        } else if code == 1 {
            Ok(SensorTypeEnum::Temperature)
        } else if code == 2 {
            Ok(SensorTypeEnum::Humidity)
        } else if code == 3 {
            Ok(SensorTypeEnum::LightLevel)
        } else {
            Err(MeteoError)
        }
    }

    /// The verb that asks for a measurement of this kind.
    pub fn request_verb(&self) -> (verb: &'static [u8])
        ensures
            verb@ == request_verb(*self),
    {
        match self {
            SensorTypeEnum::Pressure => "GET_PRESSURE".as_bytes(),
            SensorTypeEnum::Temperature => "GET_TEMPERATURE".as_bytes(),
            SensorTypeEnum::Humidity => "GET_HUMIDITY".as_bytes(),
            SensorTypeEnum::LightLevel => "GET_LIGHT_LEVEL".as_bytes(),
        }
    }

    /// The verb that answers with a measurement of this kind.
    pub fn reply_verb(&self) -> (verb: &'static [u8])
        ensures
            verb@ == reply_verb(*self),
    {
        match self {
            SensorTypeEnum::Pressure => "PRESSURE_REPLY".as_bytes(),
            SensorTypeEnum::Temperature => "TEMPERATURE_REPLY".as_bytes(),
            SensorTypeEnum::Humidity => "HUMIDITY_REPLY".as_bytes(),
            SensorTypeEnum::LightLevel => "LIGHT_LEVEL_REPLY".as_bytes(),
        }
    }
}

/// A request to the meteo module: the kind asked for and the sensor.
#[derive(Clone, Copy, Debug, PartialEq, Eq, Structural)]
pub enum OutgoingMessage {
    GetPressure(u32),
    GetTemperature(u32),
    GetHumidity(u32),
    GetLightLevel(u32),
}

impl OutgoingMessage {
    /// The kind of measurement that the request asks for.
    pub open spec fn kind(self) -> SensorTypeEnum {
        match self {
            OutgoingMessage::GetPressure(_) => SensorTypeEnum::Pressure,
            OutgoingMessage::GetTemperature(_) => SensorTypeEnum::Temperature,
            OutgoingMessage::GetHumidity(_) => SensorTypeEnum::Humidity,
            OutgoingMessage::GetLightLevel(_) => SensorTypeEnum::LightLevel,
        }
    }

    /// The sensor that the request addresses.
    pub open spec fn sensor_id(self) -> u32 {
        match self {
            OutgoingMessage::GetPressure(id) => id,
            OutgoingMessage::GetTemperature(id) => id,
            OutgoingMessage::GetHumidity(id) => id,
            OutgoingMessage::GetLightLevel(id) => id,
        }
    }

    /// The request for a measurement of `kind` from sensor `sensor_id`.
    pub fn new(kind: SensorTypeEnum, sensor_id: u32) -> (msg: OutgoingMessage)
        ensures
            msg == request_for(kind, sensor_id),
    {
        match kind {
            SensorTypeEnum::Pressure => OutgoingMessage::GetPressure(sensor_id),
            SensorTypeEnum::Temperature => OutgoingMessage::GetTemperature(sensor_id),
            SensorTypeEnum::Humidity => OutgoingMessage::GetHumidity(sensor_id),
            SensorTypeEnum::LightLevel => OutgoingMessage::GetLightLevel(sensor_id),
        }
    }

    /// The module payload that spells the request.
    pub fn to_payload(&self) -> (out: Vec<u8>)
        ensures
            out@ == outgoing_payload(*self),
    {
        let (kind, sensor_id) = match self {
            OutgoingMessage::GetPressure(id) => (SensorTypeEnum::Pressure, *id),
            OutgoingMessage::GetTemperature(id) => (SensorTypeEnum::Temperature, *id),
            OutgoingMessage::GetHumidity(id) => (SensorTypeEnum::Humidity, *id),
            OutgoingMessage::GetLightLevel(id) => (SensorTypeEnum::LightLevel, *id),
        };
        let mut out: Vec<u8> = Vec::new();
        append(&mut out, "METEO".as_bytes());
        out.push(COMMA);
        append(&mut out, kind.request_verb());
        out.push(COMMA);
        push_decimal(&mut out, sensor_id as u64);
        assert(out@ =~= outgoing_payload(*self));
        out
    }
}

/// The request for a measurement of `kind` from sensor `sensor_id`.
pub open spec fn request_for(kind: SensorTypeEnum, sensor_id: u32) -> OutgoingMessage {
    match kind {
        SensorTypeEnum::Pressure => OutgoingMessage::GetPressure(sensor_id),
        SensorTypeEnum::Temperature => OutgoingMessage::GetTemperature(sensor_id),
        SensorTypeEnum::Humidity => OutgoingMessage::GetHumidity(sensor_id),
        SensorTypeEnum::LightLevel => OutgoingMessage::GetLightLevel(sensor_id),
    }
}

/// The module payload of a request: `METEO,GET_<KIND>,<sensor-id>`.
pub open spec fn outgoing_payload(msg: OutgoingMessage) -> Seq<u8> {
    module_name() + seq![COMMA] + request_verb(msg.kind()) + seq![COMMA] + decimal(
        msg.sensor_id() as nat,
    )
}

/// Why a reply payload is no meteo reply.
#[derive(Clone, Copy, Debug, PartialEq, Eq, Structural)]
pub enum MessageError {
    /// The first field is not `METEO`.
    InvalidModule,
    /// Nothing follows the module name.
    EmptyMessage,
    /// The verb is none of the four replies nor `RET_VAL`.
    InvalidMessageType,
    /// A field that the verb calls for is missing.
    MissingToken,
    /// A sensor identifier or return value is no number in range.
    InvalidToken,
}

/// A reply of the meteo module. A measurement carries the sensor it comes
/// from and the measured value as the text that arrived.
#[derive(Debug, PartialEq, Eq)]
pub enum IncomingMessage {
    Pressure(u32, Vec<u8>),
    Temperature(u32, Vec<u8>),
    Humidity(u32, Vec<u8>),
    LightLevel(u32, Vec<u8>),
    RetVal(i32),
}

/// A reply of the meteo module as a mathematical value.
pub enum IncomingModel {
    Measurement { kind: SensorTypeEnum, sensor_id: u32, value: Seq<u8> },
    RetVal { code: i32 },
}

impl View for IncomingMessage {
    type V = IncomingModel;

    open spec fn view(&self) -> IncomingModel {
        match *self {
            IncomingMessage::Pressure(sensor_id, value) => IncomingModel::Measurement {
                kind: SensorTypeEnum::Pressure,
                sensor_id,
                value: value@,
            },
            IncomingMessage::Temperature(sensor_id, value) => IncomingModel::Measurement {
                kind: SensorTypeEnum::Temperature,
                sensor_id,
                value: value@,
            },
            IncomingMessage::Humidity(sensor_id, value) => IncomingModel::Measurement {
                kind: SensorTypeEnum::Humidity,
                sensor_id,
                value: value@,
            },
            IncomingMessage::LightLevel(sensor_id, value) => IncomingModel::Measurement {
                kind: SensorTypeEnum::LightLevel,
                sensor_id,
                value: value@,
            },
            IncomingMessage::RetVal(code) => IncomingModel::RetVal { code },
        }
    }
}

/// The measurement that the fields after a reply verb spell: the sensor
/// identifier in the third field, the value in the fourth.
pub open spec fn parsed_measurement(kind: SensorTypeEnum, s: Seq<u8>) -> Result<
    IncomingModel,
    MessageError,
> {
    match field(s, 2) {
        None => Err(MessageError::MissingToken),
        Some(id_text) => match parsed_u32(id_text) {
            None => Err(MessageError::InvalidToken),
            Some(sensor_id) => match field(s, 3) {
                None => Err(MessageError::MissingToken),
                Some(value) => Ok(IncomingModel::Measurement { kind, sensor_id, value }),
            },
        },
    }
}

/// The return value that the field after `RET_VAL` spells.
pub open spec fn parsed_ret_val(s: Seq<u8>) -> Result<IncomingModel, MessageError> {
    match field(s, 2) {
        None => Err(MessageError::MissingToken),
        Some(code_text) => match parsed_i32(code_text) {
            None => Err(MessageError::InvalidToken),
            Some(code) => Ok(IncomingModel::RetVal { code }),
        },
    }
}

/// The reply that a module payload spells, or why it spells none. Fields
/// beyond those that the verb calls for are ignored.
pub open spec fn parsed_incoming(s: Seq<u8>) -> Result<IncomingModel, MessageError> {
    if first_field(s) != module_name() {
        Err(MessageError::InvalidModule)
    } else {
        match field(s, 1) {
            None => Err(MessageError::EmptyMessage),
            Some(verb) => if verb == reply_verb(SensorTypeEnum::Pressure) {
                parsed_measurement(SensorTypeEnum::Pressure, s)
            } else if verb == reply_verb(SensorTypeEnum::Temperature) {
                parsed_measurement(SensorTypeEnum::Temperature, s)
            } else if verb == reply_verb(SensorTypeEnum::Humidity) {
                parsed_measurement(SensorTypeEnum::Humidity, s)
            } else if verb == reply_verb(SensorTypeEnum::LightLevel) {
                parsed_measurement(SensorTypeEnum::LightLevel, s)
            } else if verb == ret_val_verb() {
                parsed_ret_val(s)
            } else {
                Err(MessageError::InvalidMessageType)
            },
        }
    }
}

/// Whether a text holds no comma.
pub open spec fn comma_free(s: Seq<u8>) -> bool {
    forall|i: int| 0 <= i < s.len() ==> #[trigger] s[i] != COMMA
}

/// The module name and the return-value verb hold no comma.
pub proof fn lemma_module_words()
    ensures
        comma_free(module_name()),
        comma_free(ret_val_verb()),
        ret_val_verb().len() == 7,
        ret_val_verb()[0] == 0x52,
{
    broadcast use vstd::string::is_ascii_spec_bytes;

    reveal_strlit("METEO");
    reveal_strlit("RET_VAL");
    assert(vstd::string::is_ascii("METEO"));
    assert(vstd::string::is_ascii("RET_VAL"));
}

/// The request verbs hold no comma and differ from each other.
pub proof fn lemma_request_verbs()
    ensures
        forall|k: SensorTypeEnum| comma_free(#[trigger] request_verb(k)),
        forall|a: SensorTypeEnum, b: SensorTypeEnum|
            a != b ==> #[trigger] request_verb(a) != #[trigger] request_verb(b),
{
    broadcast use vstd::string::is_ascii_spec_bytes;

    reveal_strlit("GET_PRESSURE");
    reveal_strlit("GET_TEMPERATURE");
    reveal_strlit("GET_HUMIDITY");
    reveal_strlit("GET_LIGHT_LEVEL");
    assert(vstd::string::is_ascii("GET_PRESSURE"));
    assert(vstd::string::is_ascii("GET_TEMPERATURE"));
    assert(vstd::string::is_ascii("GET_HUMIDITY"));
    assert(vstd::string::is_ascii("GET_LIGHT_LEVEL"));
    assert(request_verb(SensorTypeEnum::Pressure)[4] == 0x50);
    assert(request_verb(SensorTypeEnum::Temperature)[4] == 0x54);
    assert(request_verb(SensorTypeEnum::Humidity)[4] == 0x48);
    assert(request_verb(SensorTypeEnum::LightLevel)[4] == 0x4C);
}

/// The reply verbs hold no comma and differ from each other and from the
/// return-value verb.
pub proof fn lemma_reply_verbs()
    ensures
        forall|k: SensorTypeEnum| comma_free(#[trigger] reply_verb(k)),
        forall|k: SensorTypeEnum| #[trigger] reply_verb(k) != ret_val_verb(),
        forall|a: SensorTypeEnum, b: SensorTypeEnum|
            a != b ==> #[trigger] reply_verb(a) != #[trigger] reply_verb(b),
{
    broadcast use vstd::string::is_ascii_spec_bytes;

    lemma_module_words();
    reveal_strlit("PRESSURE_REPLY");
    reveal_strlit("TEMPERATURE_REPLY");
    reveal_strlit("HUMIDITY_REPLY");
    reveal_strlit("LIGHT_LEVEL_REPLY");
    assert(vstd::string::is_ascii("PRESSURE_REPLY"));
    assert(vstd::string::is_ascii("TEMPERATURE_REPLY"));
    assert(vstd::string::is_ascii("HUMIDITY_REPLY"));
    assert(vstd::string::is_ascii("LIGHT_LEVEL_REPLY"));
    assert(reply_verb(SensorTypeEnum::Pressure)[0] == 0x50);
    assert(reply_verb(SensorTypeEnum::Temperature)[0] == 0x54);
    assert(reply_verb(SensorTypeEnum::Humidity)[0] == 0x48);
    assert(reply_verb(SensorTypeEnum::LightLevel)[0] == 0x4C);
}

/// The kind names differ from each other.
pub proof fn lemma_kind_names()
    ensures
        forall|a: SensorTypeEnum, b: SensorTypeEnum|
            a != b ==> #[trigger] kind_name(a) != #[trigger] kind_name(b),
{
    broadcast use vstd::string::is_ascii_spec_bytes;

    reveal_strlit("pressure");
    reveal_strlit("temperature");
    reveal_strlit("humidity");
    reveal_strlit("light_level");
    assert(vstd::string::is_ascii("pressure"));
    assert(vstd::string::is_ascii("temperature"));
    assert(vstd::string::is_ascii("humidity"));
    assert(vstd::string::is_ascii("light_level"));
    assert(kind_name(SensorTypeEnum::Pressure)[0] == 0x70);
    assert(kind_name(SensorTypeEnum::Temperature)[0] == 0x74);
    assert(kind_name(SensorTypeEnum::Humidity)[0] == 0x68);
    assert(kind_name(SensorTypeEnum::LightLevel)[0] == 0x6C);
}

/// Reading the canonical name of a kind gives the kind back.
pub proof fn lemma_kind_name_round_trip(kind: SensorTypeEnum)
    ensures
        kind_named(kind_name(kind)) == Some(kind),
{
    lemma_kind_names();
}

/// Reads the sensor identifier and the value that follow a reply verb.
/// `rest` is what follows the verb's comma, if anything does.
fn parse_measurement(kind: SensorTypeEnum, rest: Option<&[u8]>, Ghost(s): Ghost<Seq<u8>>) -> (res:
    Result<IncomingMessage, MessageError>)
    requires
        match rest {
            Some(r) => crate::text::after_fields(s, 2) == Some(r@),
            None => crate::text::after_fields(s, 2) is None,
        },
    ensures
        match parsed_measurement(kind, s) {
            Ok(m) => res matches Ok(r) && r@ == m,
            Err(e) => res matches Err(x) && x == e,
        },
{
    let rest = match rest {
        Some(r) => r,
        None => {
            return Err(MessageError::MissingToken);
        },
    };
    let (id_text, rest) = split_first(rest);
    let sensor_id = match parse_u32(id_text) {
        Some(id) => id,
        None => {
            return Err(MessageError::InvalidToken);
        },
    };
    proof {
        reveal_with_fuel(crate::text::after_fields, 4);
    }
    let rest = match rest {
        Some(r) => r,
        None => {
            return Err(MessageError::MissingToken);
        },
    };
    let (value_text, _) = split_first(rest);
    let value = vstd::slice::slice_to_vec(value_text);
    Ok(
        match kind {
            SensorTypeEnum::Pressure => IncomingMessage::Pressure(sensor_id, value),
            SensorTypeEnum::Temperature => IncomingMessage::Temperature(sensor_id, value),
            SensorTypeEnum::Humidity => IncomingMessage::Humidity(sensor_id, value),
            SensorTypeEnum::LightLevel => IncomingMessage::LightLevel(sensor_id, value),
        },
    )
}

impl IncomingMessage {
    /// Reads a module payload as a reply of the meteo module.
    pub fn from_str(s: &[u8]) -> (res: Result<IncomingMessage, MessageError>)
        ensures
            match parsed_incoming(s@) {
                Ok(m) => res matches Ok(r) && r@ == m,
                Err(e) => res matches Err(x) && x == e,
            },
    {
        proof {
            reveal_with_fuel(crate::text::after_fields, 4);
        }
        let (module, rest) = split_first(s);
        if !eq_bytes(module, "METEO".as_bytes()) {
            return Err(MessageError::InvalidModule);
        }
        let rest = match rest {
            Some(r) => r,
            None => {
                return Err(MessageError::EmptyMessage);
            },
        };
        let (verb, rest) = split_first(rest);
        if eq_bytes(verb, "PRESSURE_REPLY".as_bytes()) {
            parse_measurement(SensorTypeEnum::Pressure, rest, Ghost(s@))
        } else if eq_bytes(verb, "TEMPERATURE_REPLY".as_bytes()) {
            parse_measurement(SensorTypeEnum::Temperature, rest, Ghost(s@))
        } else if eq_bytes(verb, "HUMIDITY_REPLY".as_bytes()) {
            parse_measurement(SensorTypeEnum::Humidity, rest, Ghost(s@))
        } else if eq_bytes(verb, "LIGHT_LEVEL_REPLY".as_bytes()) {
            parse_measurement(SensorTypeEnum::LightLevel, rest, Ghost(s@))
        } else if eq_bytes(verb, "RET_VAL".as_bytes()) {
            let rest = match rest {
                Some(r) => r,
                None => {
                    return Err(MessageError::MissingToken);
                },
            };
            let (code_text, _) = split_first(rest);
            match parse_i32(code_text) {
                Some(code) => Ok(IncomingMessage::RetVal(code)),
                None => Err(MessageError::InvalidToken),
            }
        } else {
            Err(MessageError::InvalidMessageType)
        }
    }
}

} // verus!
