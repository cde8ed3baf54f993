use ratfist::comm::{CommChannel, CommChannelTx, CommPaths, LinkError};
use ratfist::messages::{IncomingMessage, MessageError, MeteoError, OutgoingMessage, SensorTypeEnum};
use ratfist::node::{
    Bmp280, DeviceQuery, EnviroPHat, ErrorKind, IIRCoeficient, LogicalNode, MeasureError, Mode,
    Oversampling, SerialNode, StandbyTime, Tcs3472, Transfer,
};
use ratfist::registry::RegistryError;

const KINDS: [SensorTypeEnum; 4] = [
    SensorTypeEnum::Pressure,
    SensorTypeEnum::Temperature,
    SensorTypeEnum::Humidity,
    SensorTypeEnum::LightLevel,
];

#[test]
fn kind_names() {
    assert_eq!(SensorTypeEnum::Pressure.as_ref(), "pressure");
    assert_eq!(SensorTypeEnum::Temperature.as_ref(), "temperature");
    assert_eq!(SensorTypeEnum::Humidity.as_ref(), "humidity");
    assert_eq!(SensorTypeEnum::LightLevel.as_ref(), "light_level");
    for kind in KINDS {
        assert_eq!(SensorTypeEnum::try_from(kind.as_ref()), Ok(kind));
    }
    assert_eq!(SensorTypeEnum::try_from("Pressure"), Err(MeteoError));
    assert_eq!(SensorTypeEnum::try_from(""), Err(MeteoError));
    assert_eq!(SensorTypeEnum::try_from("light level"), Err(MeteoError));
}

#[test]
fn kind_codes() {
    assert_eq!(SensorTypeEnum::Pressure.code(), 0);
    assert_eq!(SensorTypeEnum::Temperature.code(), 1);
    assert_eq!(SensorTypeEnum::Humidity.code(), 2);
    assert_eq!(SensorTypeEnum::LightLevel.code(), 3);
    for kind in KINDS {
        assert_eq!(SensorTypeEnum::from_code(kind.code()), Ok(kind));
    }
    assert_eq!(SensorTypeEnum::from_code(4), Err(MeteoError));
    assert_eq!(SensorTypeEnum::from_code(-1), Err(MeteoError));
}

#[test]
fn request_payloads() {
    assert_eq!(OutgoingMessage::GetPressure(0).to_payload(), b"METEO,GET_PRESSURE,0".to_vec());
    assert_eq!(OutgoingMessage::GetTemperature(12).to_payload(), b"METEO,GET_TEMPERATURE,12".to_vec());
    assert_eq!(OutgoingMessage::GetHumidity(4294967295).to_payload(), b"METEO,GET_HUMIDITY,4294967295".to_vec());
    assert_eq!(OutgoingMessage::GetLightLevel(7).to_payload(), b"METEO,GET_LIGHT_LEVEL,7".to_vec());
    assert_eq!(OutgoingMessage::new(SensorTypeEnum::Pressure, 3), OutgoingMessage::GetPressure(3));
    assert_eq!(OutgoingMessage::new(SensorTypeEnum::Temperature, 3), OutgoingMessage::GetTemperature(3));
    assert_eq!(OutgoingMessage::new(SensorTypeEnum::Humidity, 3), OutgoingMessage::GetHumidity(3));
    assert_eq!(OutgoingMessage::new(SensorTypeEnum::LightLevel, 3), OutgoingMessage::GetLightLevel(3));
}

#[test]
fn replies_are_read() {
    assert_eq!(
        IncomingMessage::from_str(b"METEO,PRESSURE_REPLY,0,101325.5"),
        Ok(IncomingMessage::Pressure(0, b"101325.5".to_vec()))
    );
    assert_eq!(
        IncomingMessage::from_str(b"METEO,TEMPERATURE_REPLY,3,-4.25"),
        Ok(IncomingMessage::Temperature(3, b"-4.25".to_vec()))
    );
    assert_eq!(
        IncomingMessage::from_str(b"METEO,HUMIDITY_REPLY,1,65"),
        Ok(IncomingMessage::Humidity(1, b"65".to_vec()))
    );
    assert_eq!(
        IncomingMessage::from_str(b"METEO,LIGHT_LEVEL_REPLY,2,1e3,extra,fields"),
        Ok(IncomingMessage::LightLevel(2, b"1e3".to_vec()))
    );
    assert_eq!(IncomingMessage::from_str(b"METEO,RET_VAL,-7"), Ok(IncomingMessage::RetVal(-7)));
    assert_eq!(IncomingMessage::from_str(b"METEO,RET_VAL,0,more"), Ok(IncomingMessage::RetVal(0)));
}

#[test]
fn malformed_replies_are_refused() {
    assert_eq!(IncomingMessage::from_str(b""), Err(MessageError::InvalidModule));
    assert_eq!(IncomingMessage::from_str(b"SPINNER,RET_VAL,0"), Err(MessageError::InvalidModule));
    assert_eq!(IncomingMessage::from_str(b"meteo,RET_VAL,0"), Err(MessageError::InvalidModule));
    assert_eq!(IncomingMessage::from_str(b"METEO"), Err(MessageError::EmptyMessage));
    assert_eq!(IncomingMessage::from_str(b"METEO,"), Err(MessageError::InvalidMessageType));
    assert_eq!(IncomingMessage::from_str(b"METEO,GET_PRESSURE,0"), Err(MessageError::InvalidMessageType));
    assert_eq!(IncomingMessage::from_str(b"METEO,PRESSURE_REPLY"), Err(MessageError::MissingToken));
    assert_eq!(IncomingMessage::from_str(b"METEO,PRESSURE_REPLY,0"), Err(MessageError::MissingToken));
    assert_eq!(IncomingMessage::from_str(b"METEO,PRESSURE_REPLY,x,1.0"), Err(MessageError::InvalidToken));
    assert_eq!(IncomingMessage::from_str(b"METEO,PRESSURE_REPLY,-1,1.0"), Err(MessageError::InvalidToken));
    assert_eq!(IncomingMessage::from_str(b"METEO,PRESSURE_REPLY,4294967296,1.0"), Err(MessageError::InvalidToken));
    assert_eq!(IncomingMessage::from_str(b"METEO,RET_VAL"), Err(MessageError::MissingToken));
    assert_eq!(IncomingMessage::from_str(b"METEO,RET_VAL,"), Err(MessageError::InvalidToken));
    assert_eq!(IncomingMessage::from_str(b"METEO,RET_VAL,2147483648"), Err(MessageError::InvalidToken));
}

#[test]
fn serial_node_builds_requests() {
    let mut paths = CommPaths::new();
    let (node, created) = SerialNode::new(&mut paths, 2, 0);
    assert!(created);
    assert_eq!(node, SerialNode { node_public_id: 2, comm_channel: CommChannelTx { path_id: 0 } });
    let (other, created) = SerialNode::new(&mut paths, 3, 0);
    assert!(!created);
    assert_eq!(other.comm_channel, node.comm_channel);
    assert_eq!(paths.ids(), &vec![0]);

    let submission = node.measure(SensorTypeEnum::LightLevel, 4);
    assert_eq!(submission.path_id, 0);
    assert_eq!(submission.node_id, 2);
    assert_eq!(submission.msg, b"METEO,GET_LIGHT_LEVEL,4".to_vec());
    assert_eq!(submission.timeout_secs, 3);
    let transfer = node.transfer(OutgoingMessage::GetHumidity(1));
    assert_eq!(transfer.msg, b"METEO,GET_HUMIDITY,1".to_vec());
}

#[test]
fn serial_node_reads_replies() {
    for kind in KINDS {
        let reply = format!("METEO,{}_REPLY,5,12.5", kind.as_ref().to_uppercase());
        assert_eq!(
            SerialNode::read_reply(kind, 5, Ok(reply.clone().into_bytes())),
            Ok(b"12.5".to_vec())
        );
        assert_eq!(
            SerialNode::read_reply(kind, 6, Ok(reply.clone().into_bytes())),
            Err(MeasureError::UnexpectedReply)
        );
        for other in KINDS {
            if other != kind {
                assert_eq!(
                    SerialNode::read_reply(other, 5, Ok(reply.clone().into_bytes())),
                    Err(MeasureError::UnexpectedReply)
                );
            }
        }
    }
    assert_eq!(
        SerialNode::read_reply(SensorTypeEnum::Pressure, 0, Ok(b"METEO,RET_VAL,0".to_vec())),
        Err(MeasureError::UnexpectedReply)
    );
    assert_eq!(
        SerialNode::read_reply(SensorTypeEnum::Pressure, 0, Ok(b"garbage".to_vec())),
        Err(MeasureError::MalformedReply(MessageError::InvalidModule))
    );
    assert_eq!(
        SerialNode::read_reply(SensorTypeEnum::Pressure, 0, Err(LinkError::SendFailed)),
        Err(MeasureError::Transport(LinkError::SendFailed))
    );
    assert_eq!(
        SerialNode::read_reply(SensorTypeEnum::Pressure, 0, Err(LinkError::Disconnected)),
        Err(MeasureError::Transport(LinkError::Disconnected))
    );
}

#[test]
fn enviro_phat_configuration() {
    let mut paths = CommPaths::new();
    let (node, created) = EnviroPHat::new(&mut paths, 1);
    assert!(created);
    let bus = CommChannel { path_id: 1 };
    assert_eq!(
        node.bmp,
        Bmp280 {
            comm_path: bus,
            standby_time: StandbyTime::Time1000ms,
            iir_coef: IIRCoeficient::Mult4X,
            press_oversampling: Oversampling::Mult16X,
            temp_oversampling: Oversampling::Mult2X,
            mode: Mode::Normal,
        }
    );
    assert_eq!(node.tcs, Tcs3472 { comm_path: bus });
    assert_eq!(
        Bmp280::new(bus, StandbyTime::Time0_5ms, IIRCoeficient::Off, Oversampling::Mult1X, Oversampling::Mult8X, Mode::Forced),
        Bmp280 {
            comm_path: bus,
            standby_time: StandbyTime::Time0_5ms,
            iir_coef: IIRCoeficient::Off,
            press_oversampling: Oversampling::Mult1X,
            temp_oversampling: Oversampling::Mult8X,
            mode: Mode::Forced,
        }
    );
}

#[test]
fn enviro_phat_requests() {
    let mut paths = CommPaths::new();
    let (node, _) = EnviroPHat::new(&mut paths, 1);
    assert_eq!(node.measure(SensorTypeEnum::Pressure, 0), Ok(DeviceQuery::Bmp280Pressure(node.bmp)));
    assert_eq!(node.measure(SensorTypeEnum::Temperature, 0), Ok(DeviceQuery::Bmp280Temperature(node.bmp)));
    assert_eq!(node.measure(SensorTypeEnum::LightLevel, 0), Ok(DeviceQuery::Tcs3472LightLevel(node.tcs)));
    assert_eq!(node.measure(SensorTypeEnum::Humidity, 0), Err(MeasureError::UnsupportedMeasurement));
    for kind in KINDS {
        assert_eq!(node.measure(kind, 1), Err(MeasureError::InvalidSensorId));
        assert_eq!(node.measure(kind, u32::MAX), Err(MeasureError::InvalidSensorId));
    }
}

#[test]
fn logical_node_dispatches_on_its_kind() {
    let mut serial = CommPaths::new();
    let mut i2c = CommPaths::new();
    let (serial_node, _) = SerialNode::new(&mut serial, 2, 0);
    let (phat, _) = EnviroPHat::new(&mut i2c, 1);
    let a = LogicalNode::SerialBacked(serial_node);
    let b = LogicalNode::I2cBacked(phat);
    match a.measure(SensorTypeEnum::Humidity, 9) {
        Ok(Transfer::Serial(submission)) => {
            assert_eq!(submission.msg, b"METEO,GET_HUMIDITY,9".to_vec());
            assert_eq!(submission.node_id, 2);
            assert_eq!(submission.path_id, 0);
        }
        other => panic!("unexpected {:?}", other),
    }
    assert_eq!(b.measure(SensorTypeEnum::Pressure, 0), Ok(Transfer::I2c(DeviceQuery::Bmp280Pressure(phat.bmp))));
    assert_eq!(b.measure(SensorTypeEnum::Humidity, 0), Err(MeasureError::UnsupportedMeasurement));
    assert_eq!(b.measure(SensorTypeEnum::Pressure, 2), Err(MeasureError::InvalidSensorId));
}

#[test]
fn error_kinds() {
    assert_eq!(MeasureError::InvalidSensorId.kind(), ErrorKind::InvalidSensorId);
    assert_eq!(MeasureError::UnsupportedMeasurement.kind(), ErrorKind::UnsupportedMeasurement);
    assert_eq!(MeasureError::Transport(LinkError::SendFailed).kind(), ErrorKind::TransportFailure);
    assert_eq!(MeasureError::Transport(LinkError::Disconnected).kind(), ErrorKind::TransportFailure);
    assert_eq!(
        MeasureError::MalformedReply(MessageError::InvalidModule).kind(),
        ErrorKind::ProtocolMismatch
    );
    assert_eq!(RegistryError::UnknownNode { node_id: 1 }.kind(), ErrorKind::UnknownNode);
    assert_eq!(RegistryError::InvalidRouteType { public_id: 1 }.kind(), ErrorKind::ConfigurationError);
    assert_eq!(RegistryError::MissingRouteParam { public_id: 1 }.kind(), ErrorKind::ConfigurationError);
    assert_eq!(RegistryError::InvalidRouteParam { public_id: 1 }.kind(), ErrorKind::ConfigurationError);
    assert_eq!(RegistryError::InvalidPublicId { raw_public_id: -1 }.kind(), ErrorKind::ConfigurationError);
}
