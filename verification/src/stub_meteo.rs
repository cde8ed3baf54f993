//! The meteo module of the device stub: what a query asks for, how the
//! answer is spelled, and the parameters of the synthetic readings.
//!
//! A query is `GET_<KIND>,<sensor-id>`; the answer to it is
//! `<KIND>_REPLY,<sensor-id>,<value>`. Drawing the value is the caller's
//! part: each reading is drawn from a normal distribution around the
//! previous reading of the same kind and sensor, which starts at
//! [`initial_mean_milli`] and spreads by [`std_dev_milli`].

use vstd::prelude::*;
use crate::messages::{
    comma_free, lemma_module_words, lemma_reply_verbs, lemma_request_verbs, module_name,
    outgoing_payload, parsed_incoming, reply_verb, request_for, request_verb, IncomingModel,
    MessageError, SensorTypeEnum,
};
use crate::node::{measured, MeasureError};
use crate::text::{
    after_first_field, append, decimal, eq_bytes, field, first_field, is_digit,
    lemma_decimal_digits, lemma_decimal_round_trip, lemma_first_field_alone,
    lemma_first_field_join, parse_u32, parsed_u32, push_decimal, split_first, COMMA,
};

verus! {

/// Why a module payload is no meteo query.
#[derive(Clone, Copy, Debug, PartialEq, Eq, Structural)]
pub enum QueryError {
    /// Nothing follows the verb.
    MissingSensorId,
    /// What follows the verb is no 32-bit decimal number.
    BadSensorId,
    /// The verb is none of the four queries.
    UnknownVerb,
}

/// The kind that a query verb asks for, if it is one of the four.
pub open spec fn verb_kind(verb: Seq<u8>) -> Option<SensorTypeEnum> {
    if verb == request_verb(SensorTypeEnum::Temperature) {
        Some(SensorTypeEnum::Temperature)
    } else if verb == request_verb(SensorTypeEnum::Humidity) {
        Some(SensorTypeEnum::Humidity)
    } else if verb == request_verb(SensorTypeEnum::Pressure) {
        Some(SensorTypeEnum::Pressure)
    } else if verb == request_verb(SensorTypeEnum::LightLevel) {
        Some(SensorTypeEnum::LightLevel)
    } else {
        None
    }
}

/// What a module payload asks for: the kind named by its first field and
/// the sensor named by its second. The sensor is checked before the verb;
/// fields after the second are ignored.
pub open spec fn parsed_query(msg: Seq<u8>) -> Result<(SensorTypeEnum, u32), QueryError> {
    match field(msg, 1) {
        None => Err(QueryError::MissingSensorId),
        Some(id_text) => match parsed_u32(id_text) {
            None => Err(QueryError::BadSensorId),
            Some(sensor_id) => match verb_kind(first_field(msg)) {
                None => Err(QueryError::UnknownVerb),
                Some(kind) => Ok((kind, sensor_id)),
            },
        },
    }
}

/// The module payload of an answer: `<KIND>_REPLY,<sensor-id>,<value>`.
pub open spec fn reply_payload(kind: SensorTypeEnum, sensor_id: u32, value: Seq<u8>) -> Seq<u8> {
    reply_verb(kind) + seq![COMMA] + decimal(sensor_id as nat) + seq![COMMA] + value
}

/// The first reading of each kind, in thousandths of its unit: 25 degrees,
/// 65 percent, 101325 pascal, 1000 lux.
pub open spec fn initial_mean_milli_of(kind: SensorTypeEnum) -> u64 {
    match kind {
        SensorTypeEnum::Temperature => 25_000,
        SensorTypeEnum::Humidity => 65_000,
        SensorTypeEnum::Pressure => 101_325_000,
        SensorTypeEnum::LightLevel => 1_000_000,
    }
}

/// The standard deviation of the step from one reading to the next, in
/// thousandths of the unit: 1 degree, 0.3 percent, 100 pascal, 10 lux.
pub open spec fn std_dev_milli_of(kind: SensorTypeEnum) -> u64 {
    match kind {
        SensorTypeEnum::Temperature => 1_000,
        SensorTypeEnum::Humidity => 300,
        SensorTypeEnum::Pressure => 100_000,
        SensorTypeEnum::LightLevel => 10_000,
    }
}

/// The first reading of a kind, in thousandths of its unit.
pub fn initial_mean_milli(kind: SensorTypeEnum) -> (mean: u64)
    ensures
        mean == initial_mean_milli_of(kind),
{
    match kind {
        SensorTypeEnum::Temperature => 25_000,
        SensorTypeEnum::Humidity => 65_000,
        SensorTypeEnum::Pressure => 101_325_000,
        SensorTypeEnum::LightLevel => 1_000_000,
    }
}

/// The standard deviation of the step between two readings of a kind, in
/// thousandths of its unit.
pub fn std_dev_milli(kind: SensorTypeEnum) -> (deviation: u64)
    ensures
        deviation == std_dev_milli_of(kind),
{
    match kind {
        SensorTypeEnum::Temperature => 1_000,
        SensorTypeEnum::Humidity => 300,
        SensorTypeEnum::Pressure => 100_000,
        SensorTypeEnum::LightLevel => 10_000,
    }
}

/// Reads a module payload as a meteo query.
pub fn parse_query(msg: &[u8]) -> (res: Result<(SensorTypeEnum, u32), QueryError>)
    ensures
        res == parsed_query(msg@),
{
    proof {
        reveal_with_fuel(crate::text::after_fields, 3);
    }
    let (verb, rest) = split_first(msg);
    let rest = match rest {
        Some(r) => r,
        None => {
            return Err(QueryError::MissingSensorId);
        },
    };
    let (id_text, _) = split_first(rest);
    let sensor_id = match parse_u32(id_text) {
        Some(id) => id,
        None => {
            return Err(QueryError::BadSensorId);
        },
    };
    if eq_bytes(verb, SensorTypeEnum::Temperature.request_verb()) {
        Ok((SensorTypeEnum::Temperature, sensor_id))
    } else if eq_bytes(verb, SensorTypeEnum::Humidity.request_verb()) {
        Ok((SensorTypeEnum::Humidity, sensor_id))
    } else if eq_bytes(verb, SensorTypeEnum::Pressure.request_verb()) {
        Ok((SensorTypeEnum::Pressure, sensor_id))
    } else if eq_bytes(verb, SensorTypeEnum::LightLevel.request_verb()) {
        Ok((SensorTypeEnum::LightLevel, sensor_id))
    } else {
        Err(QueryError::UnknownVerb)
    }
}

/// Spells the answer to a query: the reading `value` of sensor `sensor_id`.
pub fn format_reply(kind: SensorTypeEnum, sensor_id: u32, value: &[u8]) -> (out: Vec<u8>)
    ensures
        out@ == reply_payload(kind, sensor_id, value@),
{
    let mut out: Vec<u8> = Vec::new();
    append(&mut out, kind.reply_verb());
    out.push(COMMA);
    push_decimal(&mut out, sensor_id as u64);
    out.push(COMMA);
    append(&mut out, value);
    assert(out@ =~= reply_payload(kind, sensor_id, value@));
    out
}

/// The decimal spelling of a number holds no comma.
proof fn lemma_decimal_comma_free(n: nat)
    ensures
        comma_free(decimal(n)),
{
    lemma_decimal_digits(n);
    assert forall|i: int| 0 <= i < decimal(n).len() implies #[trigger] decimal(n)[i] != COMMA by {
        assert(is_digit(decimal(n)[i]));
    }
}

/// The stub understands every request that a gateway writes: what follows
/// the module name in the request for `kind` and `sensor_id` is read as the
/// query for that kind and that sensor.
pub proof fn lemma_query_round_trip(kind: SensorTypeEnum, sensor_id: u32)
    ensures
        first_field(outgoing_payload(request_for(kind, sensor_id))) == module_name(),
        after_first_field(outgoing_payload(request_for(kind, sensor_id))) matches Some(query)
            && parsed_query(query) == Ok::<(SensorTypeEnum, u32), QueryError>((kind, sensor_id)),
{
    let id_text = decimal(sensor_id as nat);
    let query = request_verb(kind) + seq![COMMA] + id_text;
    let payload = outgoing_payload(request_for(kind, sensor_id));
    lemma_module_words();
    lemma_request_verbs();
    lemma_decimal_comma_free(sensor_id as nat);
    lemma_decimal_round_trip(sensor_id as nat, u32::MAX as nat);
    assert(payload =~= module_name() + seq![COMMA] + query);
    lemma_first_field_join(module_name(), query);
    lemma_first_field_join(request_verb(kind), id_text);
    lemma_first_field_alone(id_text);
    reveal_with_fuel(crate::text::after_fields, 3);
    assert(field(query, 1) == Some(id_text));
}

/// The gateway understands every answer that the stub writes: the answer
/// for `kind` and `sensor_id`, behind the module name, is read as the
/// measurement of that kind from that sensor, and its value is what the
/// stub wrote up to the first comma.
pub proof fn lemma_reply_round_trip(kind: SensorTypeEnum, sensor_id: u32, value: Seq<u8>)
    ensures
        parsed_incoming(module_name() + seq![COMMA] + reply_payload(kind, sensor_id, value))
            == Ok::<IncomingModel, MessageError>(
            IncomingModel::Measurement { kind, sensor_id, value: first_field(value) },
        ),
{
    let id_text = decimal(sensor_id as nat);
    let after_verb = id_text + seq![COMMA] + value;
    let reply = reply_verb(kind) + seq![COMMA] + after_verb;
    let s = module_name() + seq![COMMA] + reply;
    lemma_module_words();
    lemma_reply_verbs();
    lemma_decimal_comma_free(sensor_id as nat);
    lemma_decimal_round_trip(sensor_id as nat, u32::MAX as nat);
    assert(reply =~= reply_payload(kind, sensor_id, value));
    lemma_first_field_join(module_name(), reply);
    lemma_first_field_join(reply_verb(kind), after_verb);
    lemma_first_field_join(id_text, value);
    reveal_with_fuel(crate::text::after_fields, 4);
    assert(field(s, 1) == Some(reply_verb(kind)));
    assert(field(s, 2) == Some(id_text));
    assert(field(s, 3) == Some(first_field(value)));
}

/// A serial node that asked for `kind` from `sensor_id` and receives the
/// stub's answer to that query hands its caller the value that the stub
/// wrote, up to the first comma.
pub proof fn lemma_answer_is_measured(kind: SensorTypeEnum, sensor_id: u32, value: Seq<u8>)
    ensures
        measured(
            kind,
            sensor_id,
            Ok(module_name() + seq![COMMA] + reply_payload(kind, sensor_id, value)),
        ) == Ok::<Seq<u8>, MeasureError>(first_field(value)),
{
    lemma_reply_round_trip(kind, sensor_id, value);
}

} // verus!
