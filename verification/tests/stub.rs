use ratfist::codec::{encode, FrameError};
use ratfist::dispatcher::{
    route, Comm, DispatchError, Dispatched, Dispatcher, Module, MsgSender, Request,
};
use ratfist::link::{Inbound, LinkWorker};
use ratfist::messages::{IncomingMessage, SensorTypeEnum};
use ratfist::stub_meteo::{format_reply, initial_mean_milli, parse_query, std_dev_milli, QueryError};

struct Recorder {
    name: &'static str,
    seen: Vec<(u64, Vec<u8>)>,
    fail: bool,
}

impl Recorder {
    fn new(name: &'static str) -> Recorder {
        Recorder { name, seen: Vec::new(), fail: false }
    }
}

impl Module for Recorder {
    fn handle_incoming_msg<S: MsgSender>(
        &mut self,
        msg_writer: &mut S,
        transaction_id: u64,
        msg_str: &[u8],
    ) -> Result<(), ()> {
        self.seen.push((transaction_id, msg_str.to_vec()));
        if self.fail {
            return Err(());
        }
        let mut answer = b"ECHO,".to_vec();
        answer.extend_from_slice(msg_str);
        msg_writer.write_msg(transaction_id, self.name.as_bytes(), &answer)
    }
}

struct FixedMeteo {
    values: Vec<&'static str>,
}

impl Module for FixedMeteo {
    fn handle_incoming_msg<S: MsgSender>(
        &mut self,
        msg_writer: &mut S,
        transaction_id: u64,
        msg_str: &[u8],
    ) -> Result<(), ()> {
        let (kind, sensor_id) = parse_query(msg_str).map_err(|_| ())?;
        let value = self.values.remove(0);
        let reply = format_reply(kind, sensor_id, value.as_bytes());
        msg_writer.write_msg(transaction_id, b"METEO", &reply)
    }
}

fn body_of(payload: &[u8]) -> Vec<u8> {
    let frame = encode(payload);
    frame[1..frame.len() - 2].to_vec()
}

#[test]
fn sink_frames_the_answer() {
    let mut comm = Comm::new();
    assert_eq!(comm.write_msg(7, b"METEO", b"HUMIDITY_REPLY,0,65.1"), Ok(()));
    assert_eq!(comm.take_output(), b"$7,METEO,HUMIDITY_REPLY,0,65.1*59\r\n".to_vec());
    assert_eq!(comm.take_output(), Vec::<u8>::new());
    comm.write_msg(1, b"A", b"x").unwrap();
    comm.write_msg(2, b"B", b"y").unwrap();
    let mut both = encode(b"1,A,x");
    both.extend(encode(b"2,B,y"));
    assert_eq!(comm.take_output(), both);
}

#[test]
fn route_cuts_at_the_first_two_commas() {
    assert_eq!(
        route(&body_of(b"7,METEO,GET_HUMIDITY,0")),
        Ok(Request { transaction_id: 7, module_name: b"METEO".to_vec(), payload: b"GET_HUMIDITY,0".to_vec() })
    );
    assert_eq!(
        route(&body_of(b"7,METEO,")),
        Ok(Request { transaction_id: 7, module_name: b"METEO".to_vec(), payload: Vec::new() })
    );
    assert_eq!(route(&body_of(b"x,METEO,Q")), Err(DispatchError::BadTransactionId));
    assert_eq!(route(&body_of(b"METEO")), Err(DispatchError::BadTransactionId));
    assert_eq!(route(&body_of(b"7")), Err(DispatchError::MissingModuleName));
    assert_eq!(route(&body_of(b"7,METEO")), Err(DispatchError::MissingPayload));
    assert_eq!(route(b"7,METEO,Q*00"), Err(DispatchError::Frame(FrameError::ChecksumMismatch)));
    assert_eq!(route(b"7"), Err(DispatchError::Frame(FrameError::TooShort)));
}

#[test]
fn dispatcher_registers_modules() {
    let mut dispatcher: Dispatcher<Recorder> = Dispatcher::new();
    assert!(!dispatcher.register_handler_module(b"A", Recorder::new("A")));
    assert!(!dispatcher.register_handler_module(b"B", Recorder::new("B")));
    assert!(dispatcher.register_handler_module(b"A", Recorder::new("A2")));
    assert_eq!(dispatcher.handle_incoming_msg(&body_of(b"1,A,hello")), Dispatched::Handled { module: 0 });
    assert_eq!(dispatcher.handle_incoming_msg(&body_of(b"2,B,world")), Dispatched::Handled { module: 1 });
    let mut expected = encode(b"1,A2,ECHO,hello");
    expected.extend(encode(b"2,B,ECHO,world"));
    assert_eq!(dispatcher.take_output(), expected);
}

#[test]
fn dispatcher_drops_what_it_cannot_route() {
    let mut dispatcher: Dispatcher<Recorder> = Dispatcher::new();
    dispatcher.register_handler_module(b"A", Recorder::new("A"));
    assert_eq!(
        dispatcher.handle_incoming_msg(&body_of(b"1,NOPE,x")),
        Dispatched::Dropped { error: DispatchError::UnknownModule }
    );
    assert_eq!(
        dispatcher.handle_incoming_msg(b"1,A,x*00"),
        Dispatched::Dropped { error: DispatchError::Frame(FrameError::ChecksumMismatch) }
    );
    assert_eq!(
        dispatcher.handle_incoming_msg(&body_of(b"1,A")),
        Dispatched::Dropped { error: DispatchError::MissingPayload }
    );
    assert_eq!(
        dispatcher.handle_incoming_msg(&body_of(b"one,A,x")),
        Dispatched::Dropped { error: DispatchError::BadTransactionId }
    );
    assert_eq!(dispatcher.take_output(), Vec::<u8>::new());
}

#[test]
fn dispatcher_reports_failing_handlers() {
    let mut dispatcher: Dispatcher<Recorder> = Dispatcher::new();
    let mut failing = Recorder::new("A");
    failing.fail = true;
    dispatcher.register_handler_module(b"A", failing);
    assert_eq!(
        dispatcher.handle_incoming_msg(&body_of(b"3,A,x")),
        Dispatched::HandlerFailed { module: 0 }
    );
    assert_eq!(dispatcher.take_output(), Vec::<u8>::new());
}

#[test]
fn dispatcher_feeds_frames_from_a_stream() {
    let mut dispatcher: Dispatcher<Recorder> = Dispatcher::new();
    dispatcher.register_handler_module(b"A", Recorder::new("A"));
    let mut stream = b"noise".to_vec();
    stream.extend(encode(b"1,A,first"));
    stream.extend(b"$bad\r\n");
    stream.extend(encode(b"2,A,second"));
    let (head, tail) = stream.split_at(9);
    assert_eq!(dispatcher.feed(head), vec![]);
    assert_eq!(
        dispatcher.feed(tail),
        vec![
            Dispatched::Handled { module: 0 },
            Dispatched::Dropped { error: DispatchError::Frame(FrameError::TooShort) },
            Dispatched::Handled { module: 0 },
        ]
    );
    let mut expected = encode(b"1,A,ECHO,first");
    expected.extend(encode(b"2,A,ECHO,second"));
    assert_eq!(dispatcher.take_output(), expected);
}

#[test]
fn meteo_queries() {
    assert_eq!(parse_query(b"GET_PRESSURE,0"), Ok((SensorTypeEnum::Pressure, 0)));
    assert_eq!(parse_query(b"GET_TEMPERATURE,1"), Ok((SensorTypeEnum::Temperature, 1)));
    assert_eq!(parse_query(b"GET_HUMIDITY,2"), Ok((SensorTypeEnum::Humidity, 2)));
    assert_eq!(parse_query(b"GET_LIGHT_LEVEL,3,ignored"), Ok((SensorTypeEnum::LightLevel, 3)));
    assert_eq!(parse_query(b"GET_PRESSURE"), Err(QueryError::MissingSensorId));
    assert_eq!(parse_query(b"GET_PRESSURE,"), Err(QueryError::BadSensorId));
    assert_eq!(parse_query(b"GET_PRESSURE,x"), Err(QueryError::BadSensorId));
    assert_eq!(parse_query(b"GET_WIND,0"), Err(QueryError::UnknownVerb));
    assert_eq!(parse_query(b"GET_WIND,x"), Err(QueryError::BadSensorId));
    assert_eq!(parse_query(b"get_pressure,0"), Err(QueryError::UnknownVerb));
    assert_eq!(parse_query(b""), Err(QueryError::MissingSensorId));
}

#[test]
fn meteo_replies() {
    assert_eq!(format_reply(SensorTypeEnum::Pressure, 0, b"101325"), b"PRESSURE_REPLY,0,101325".to_vec());
    assert_eq!(format_reply(SensorTypeEnum::Temperature, 1, b"25.5"), b"TEMPERATURE_REPLY,1,25.5".to_vec());
    assert_eq!(format_reply(SensorTypeEnum::Humidity, 2, b"65.1"), b"HUMIDITY_REPLY,2,65.1".to_vec());
    assert_eq!(format_reply(SensorTypeEnum::LightLevel, 3, b"1000"), b"LIGHT_LEVEL_REPLY,3,1000".to_vec());
}

#[test]
fn meteo_parameters() {
    assert_eq!(initial_mean_milli(SensorTypeEnum::Temperature), 25_000);
    assert_eq!(initial_mean_milli(SensorTypeEnum::Humidity), 65_000);
    assert_eq!(initial_mean_milli(SensorTypeEnum::Pressure), 101_325_000);
    assert_eq!(initial_mean_milli(SensorTypeEnum::LightLevel), 1_000_000);
    assert_eq!(std_dev_milli(SensorTypeEnum::Temperature), 1_000);
    assert_eq!(std_dev_milli(SensorTypeEnum::Humidity), 300);
    assert_eq!(std_dev_milli(SensorTypeEnum::Pressure), 100_000);
    assert_eq!(std_dev_milli(SensorTypeEnum::LightLevel), 10_000);
}

#[test]
fn stub_answers_three_humidity_queries() {
    let mut dispatcher: Dispatcher<FixedMeteo> = Dispatcher::new();
    dispatcher.register_handler_module(b"METEO", FixedMeteo { values: vec!["64.9", "65.3", "65.2"] });
    let mut gateway: LinkWorker<u8> = LinkWorker::new();
    let sigma = std_dev_milli(SensorTypeEnum::Humidity) as f64 / 1000.0;
    let mut previous = initial_mean_milli(SensorTypeEnum::Humidity) as f64 / 1000.0;
    assert_eq!(previous, 65.0);
    assert_eq!(sigma, 0.3);
    for round in 1..=3u64 {
        gateway.submit(0, b"unused", 0);
        dispatcher.feed(&encode(format!("{},METEO,GET_HUMIDITY,0", round).as_bytes()));
        let answer = dispatcher.take_output();
        let events = gateway.receive_all(&answer);
        assert_eq!(events.len(), 1);
        let payload = match &events[0] {
            Inbound::Reply { transaction_id, payload, .. } => {
                assert_eq!(*transaction_id, round);
                payload.clone()
            }
            other => panic!("unexpected {:?}", other),
        };
        match IncomingMessage::from_str(&payload) {
            Ok(IncomingMessage::Humidity(0, text)) => {
                let value: f64 = std::str::from_utf8(&text).unwrap().parse().unwrap();
                assert!(value.is_finite());
                assert!((value - previous).abs() <= 6.0 * sigma);
                previous = value;
            }
            other => panic!("unexpected {:?}", other),
        }
    }
}
