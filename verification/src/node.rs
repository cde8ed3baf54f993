//! Logical sensor nodes: what a measurement request becomes on each kind of
//! node, and what a node's answer means.
//!
//! A serial node turns a request into a submission for its link and checks
//! the reply against the request. An EnviroPHat node turns a request into
//! the device read to perform on its I2C bus. Neither performs the
//! transfer.

use vstd::prelude::*;
use crate::comm::{
    get_i2c_comm_path, get_serial_comm_path, obtained, CommChannel, CommChannelTx, CommPaths,
    LinkError, Submission, REPLY_TIMEOUT_SECS,
};
use crate::messages::{
    outgoing_payload, parsed_incoming, request_for, IncomingMessage, IncomingModel, MessageError,
    OutgoingMessage, SensorTypeEnum,
};

verus! {

/// Why a measurement request brought no value.
#[derive(Clone, Copy, Debug, PartialEq, Eq, Structural)]
pub enum MeasureError {
    /// The node has no sensor with this identifier.
    InvalidSensorId,
    /// The node cannot measure this kind.
    UnsupportedMeasurement,
    /// The link brought no reply.
    Transport(LinkError),
    /// The reply is no meteo reply.
    MalformedReply(MessageError),
    /// The reply is a meteo reply, but not the measurement asked for: another
    /// kind, another sensor, or a return value.
    UnexpectedReply,
}

/// The kinds of failure that a caller of the gateway tells apart.
#[derive(Clone, Copy, Debug, PartialEq, Eq, Structural)]
pub enum ErrorKind {
    /// A frame or a reply whose contents are not what was expected.
    ProtocolMismatch,
    /// A write error, a read error, a bus error or a wait that timed out.
    TransportFailure,
    /// No node is known under the identifier.
    UnknownNode,
    /// The node has no sensor with the identifier.
    InvalidSensorId,
    /// The node does not measure the kind.
    UnsupportedMeasurement,
    /// The configuration names something that cannot be used.
    ConfigurationError,
}

/// The kind of failure that a measurement error is.
pub open spec fn measure_error_kind(error: MeasureError) -> ErrorKind {
    match error {
        MeasureError::InvalidSensorId => ErrorKind::InvalidSensorId,
        MeasureError::UnsupportedMeasurement => ErrorKind::UnsupportedMeasurement,
        MeasureError::Transport(_) => ErrorKind::TransportFailure,
        MeasureError::MalformedReply(_) => ErrorKind::ProtocolMismatch,
        MeasureError::UnexpectedReply => ErrorKind::ProtocolMismatch,
    }
}

impl MeasureError {
    /// The kind of failure that this error is.
    pub fn kind(&self) -> (kind: ErrorKind)
        ensures
            kind == measure_error_kind(*self),
    {
        match self {
            MeasureError::InvalidSensorId => ErrorKind::InvalidSensorId,
            MeasureError::UnsupportedMeasurement => ErrorKind::UnsupportedMeasurement,
            MeasureError::Transport(_) => ErrorKind::TransportFailure,
            MeasureError::MalformedReply(_) => ErrorKind::ProtocolMismatch,
            MeasureError::UnexpectedReply => ErrorKind::ProtocolMismatch,
        }
    }
}

/// A node reached through a serial link.
#[derive(Clone, Copy, Debug, PartialEq, Eq, Structural)]
pub struct SerialNode {
    /// The identifier under which the node is known on its link.
    pub node_public_id: u32,
    /// The endpoint of the node's link.
    pub comm_channel: CommChannelTx,
}

/// The submission that asks node `node_public_id` behind link `path_id` for
/// a measurement.
pub open spec fn is_measure_request(
    submission: Submission,
    path_id: u32,
    node_public_id: u32,
    measurement_type: SensorTypeEnum,
    sensor_id: u32,
) -> bool {
    &&& submission.path_id == path_id
    &&& submission.node_id == node_public_id
    &&& submission.timeout_secs == REPLY_TIMEOUT_SECS
    &&& submission.msg@ == outgoing_payload(request_for(measurement_type, sensor_id))
}

/// What the outcome of a transfer means for the request that caused it: the
/// value text of the reply if the reply is a measurement of the kind and the
/// sensor asked for, else the reason why there is no value.
pub open spec fn measured(
    measurement_type: SensorTypeEnum,
    sensor_id: u32,
    outcome: Result<Seq<u8>, LinkError>,
) -> Result<Seq<u8>, MeasureError> {
    match outcome {
        Err(e) => Err(MeasureError::Transport(e)),
        Ok(raw) => match parsed_incoming(raw) {
            Err(e) => Err(MeasureError::MalformedReply(e)),
            Ok(IncomingModel::Measurement { kind, sensor_id: id, value }) => if kind
                == measurement_type && id == sensor_id {
                Ok(value)
            } else {
                Err(MeasureError::UnexpectedReply)
            },
            Ok(IncomingModel::RetVal { .. }) => Err(MeasureError::UnexpectedReply),
        },
    }
}

impl SerialNode {
    /// The node `node_public_id` behind serial link `serial_comm_path_id`.
    /// The link's endpoint comes from `paths`; the flag says whether the
    /// link was unknown until now.
    pub fn new(paths: &mut CommPaths, node_public_id: u32, serial_comm_path_id: u32) -> (out: (
        SerialNode,
        bool,
    ))
        ensures
            out.0.node_public_id == node_public_id,
            out.0.comm_channel.path_id == serial_comm_path_id,
            out.1 == !old(paths)@.contains(serial_comm_path_id),
            final(paths)@ == obtained(old(paths)@, serial_comm_path_id),
    {
        let (comm_channel, created) = get_serial_comm_path(paths, serial_comm_path_id);
        (SerialNode { node_public_id, comm_channel }, created)
    }

    /// Addresses a message to this node.
    pub fn transfer(&self, msg: OutgoingMessage) -> (submission: Submission)
        ensures
            submission.path_id == self.comm_channel.path_id,
            submission.node_id == self.node_public_id,
            submission.msg@ == outgoing_payload(msg),
            submission.timeout_secs == REPLY_TIMEOUT_SECS,
    {
        self.comm_channel.send(self.node_public_id, msg.to_payload())
    }

    /// The submission that asks this node for a measurement.
    pub fn measure(&self, measurement_type: SensorTypeEnum, sensor_id: u32) -> (submission:
        Submission)
        ensures
            is_measure_request(
                submission,
                self.comm_channel.path_id,
                self.node_public_id,
                measurement_type,
                sensor_id,
            ),
    {
        let msg = OutgoingMessage::new(measurement_type, sensor_id);
        self.transfer(msg)
    }

    /// Reads the outcome of the transfer that [`SerialNode::measure`] asked
    /// for. Returns the value text of the reply if the reply is a
    /// measurement of the kind and the sensor that were asked for.
    pub fn read_reply(
        measurement_type: SensorTypeEnum,
        sensor_id: u32,
        outcome: Result<Vec<u8>, LinkError>,
    ) -> (res: Result<Vec<u8>, MeasureError>)
        ensures
            match measured(
                measurement_type,
                sensor_id,
                match outcome {
                    Ok(raw) => Ok(raw@),
                    Err(e) => Err(e),
                },
            ) {
                Ok(value) => res matches Ok(v) && v@ == value,
                Err(e) => res matches Err(x) && x == e,
            },
    {
        let raw = match outcome {
            Ok(raw) => raw,
            Err(e) => {
                return Err(MeasureError::Transport(e));
            },
        };
        match IncomingMessage::from_str(raw.as_slice()) {
            Ok(IncomingMessage::Pressure(id, value)) => {
                if id == sensor_id && measurement_type == SensorTypeEnum::Pressure {
                    Ok(value)
                } else {
                    Err(MeasureError::UnexpectedReply)
                }
            },
            Ok(IncomingMessage::Temperature(id, value)) => {
                if id == sensor_id && measurement_type == SensorTypeEnum::Temperature {
                    Ok(value)
                } else {
                    Err(MeasureError::UnexpectedReply)
                }
            },
            Ok(IncomingMessage::Humidity(id, value)) => {
                if id == sensor_id && measurement_type == SensorTypeEnum::Humidity {
                    Ok(value)
                } else {
                    Err(MeasureError::UnexpectedReply)
                }
            },
            Ok(IncomingMessage::LightLevel(id, value)) => {
                if id == sensor_id && measurement_type == SensorTypeEnum::LightLevel {
                    Ok(value)
                } else {
                    Err(MeasureError::UnexpectedReply)
                }
            },
            Ok(IncomingMessage::RetVal(_)) => Err(MeasureError::UnexpectedReply),
            Err(e) => Err(MeasureError::MalformedReply(e)),
        }
    }
}

/// Standby time of the pressure sensor between two measurements.
#[allow(non_camel_case_types)]
#[derive(Clone, Copy, Debug, PartialEq, Eq, Structural)]
pub enum StandbyTime {
    Time0_5ms,
    Time62_5ms,
    Time125ms,
    Time250ms,
    Time500ms,
    Time1000ms,
    Time2000ms,
    Time4000ms,
}

/// Coefficient of the pressure sensor's IIR filter.
#[derive(Clone, Copy, Debug, PartialEq, Eq, Structural)]
pub enum IIRCoeficient {
    Off,
    Mult2X,
    Mult4X,
    Mult8X,
    Mult16X,
}

/// Oversampling of one channel of the pressure sensor.
#[derive(Clone, Copy, Debug, PartialEq, Eq, Structural)]
pub enum Oversampling {
    Mult1X,
    Mult2X,
    Mult4X,
    Mult8X,
    Mult16X,
}

/// Power mode of the pressure sensor.
#[derive(Clone, Copy, Debug, PartialEq, Eq, Structural)]
pub enum Mode {
    Sleep,
    Normal,
    Forced,
}

/// The pressure and temperature sensor of an EnviroPHat and the
/// configuration it runs with.
#[derive(Clone, Copy, Debug, PartialEq, Eq, Structural)]
pub struct Bmp280 {
    pub comm_path: CommChannel,
    pub standby_time: StandbyTime,
    pub iir_coef: IIRCoeficient,
    pub press_oversampling: Oversampling,
    pub temp_oversampling: Oversampling,
    pub mode: Mode,
}

impl Bmp280 {
    /// A pressure sensor on bus `comm_path` with the given configuration.
    pub fn new(
        comm_path: CommChannel,
        standby_time: StandbyTime,
        iir_coef: IIRCoeficient,
        press_oversampling: Oversampling,
        temp_oversampling: Oversampling,
        mode: Mode,
    ) -> (bmp: Bmp280)
        ensures
            bmp == (Bmp280 {
                comm_path,
                standby_time,
                iir_coef,
                press_oversampling,
                temp_oversampling,
                mode,
            }),
    {
        Bmp280 { comm_path, standby_time, iir_coef, press_oversampling, temp_oversampling, mode }
    }
}

/// The light and colour sensor of an EnviroPHat.
#[derive(Clone, Copy, Debug, PartialEq, Eq, Structural)]
pub struct Tcs3472 {
    pub comm_path: CommChannel,
}

/// The device read that answers a request on an EnviroPHat. Pressure and
/// temperature come out of one read of the pressure sensor.
#[derive(Clone, Copy, Debug, PartialEq, Eq, Structural)]
pub enum DeviceQuery {
    /// Read the pressure sensor and take the pressure.
    Bmp280Pressure(Bmp280),
    /// Read the pressure sensor and take the temperature.
    Bmp280Temperature(Bmp280),
    /// Read the light sensor and take the light level.
    Tcs3472LightLevel(Tcs3472),
}

/// A node made of the two sensors of an EnviroPHat on one I2C bus.
#[derive(Clone, Copy, Debug, PartialEq, Eq, Structural)]
pub struct EnviroPHat {
    pub bmp: Bmp280,
    pub tcs: Tcs3472,
}

/// The EnviroPHat on I2C bus `comm_path`, with the configuration that every
/// EnviroPHat node runs with: one second of standby, filter coefficient 4,
/// pressure oversampled 16 times, temperature twice, normal mode.
pub open spec fn enviro_phat_on(comm_path: CommChannel) -> EnviroPHat {
    EnviroPHat {
        bmp: Bmp280 {
            comm_path,
            standby_time: StandbyTime::Time1000ms,
            iir_coef: IIRCoeficient::Mult4X,
            press_oversampling: Oversampling::Mult16X,
            temp_oversampling: Oversampling::Mult2X,
            mode: Mode::Normal,
        },
        tcs: Tcs3472 { comm_path },
    }
}

/// What a request becomes on an EnviroPHat: only sensor 0 exists, humidity
/// is not measured, and each other kind has its device read.
pub open spec fn enviro_phat_query(
    node: EnviroPHat,
    measurement_type: SensorTypeEnum,
    sensor_id: u32,
) -> Result<DeviceQuery, MeasureError> {
    if sensor_id != 0 {
        Err(MeasureError::InvalidSensorId)
    } else {
        match measurement_type {
            SensorTypeEnum::Pressure => Ok(DeviceQuery::Bmp280Pressure(node.bmp)),
            SensorTypeEnum::Temperature => Ok(DeviceQuery::Bmp280Temperature(node.bmp)),
            SensorTypeEnum::Humidity => Err(MeasureError::UnsupportedMeasurement),
            SensorTypeEnum::LightLevel => Ok(DeviceQuery::Tcs3472LightLevel(node.tcs)),
        }
    }
}

impl EnviroPHat {
    /// The EnviroPHat on I2C bus `i2c_comm_path_id`. The bus endpoint comes
    /// from `paths`; the flag says whether the bus was unknown until now.
    pub fn new(paths: &mut CommPaths, i2c_comm_path_id: u32) -> (out: (EnviroPHat, bool))
        ensures
            out.0.bmp.comm_path.path_id == i2c_comm_path_id,
            out.0 == enviro_phat_on(out.0.bmp.comm_path),
            out.1 == !old(paths)@.contains(i2c_comm_path_id),
            final(paths)@ == obtained(old(paths)@, i2c_comm_path_id),
    {
        let (comm_path, created) = get_i2c_comm_path(paths, i2c_comm_path_id);
        let bmp = Bmp280::new(
            comm_path,
            StandbyTime::Time1000ms,
            IIRCoeficient::Mult4X,
            Oversampling::Mult16X,
            Oversampling::Mult2X,
            Mode::Normal,
        );
        let tcs = Tcs3472 { comm_path };
        (EnviroPHat { bmp, tcs }, created)
    }

    /// The device read that answers a request, or why the node refuses it.
    pub fn measure(&self, measurement_type: SensorTypeEnum, sensor_id: u32) -> (res: Result<
        DeviceQuery,
        MeasureError,
    >)
        ensures
            res == enviro_phat_query(*self, measurement_type, sensor_id),
    {
        if sensor_id != 0 {
            return Err(MeasureError::InvalidSensorId);
        }
        match measurement_type {
            SensorTypeEnum::Pressure => Ok(DeviceQuery::Bmp280Pressure(self.bmp)),
            SensorTypeEnum::Temperature => Ok(DeviceQuery::Bmp280Temperature(self.bmp)),
            SensorTypeEnum::Humidity => Err(MeasureError::UnsupportedMeasurement),
            SensorTypeEnum::LightLevel => Ok(DeviceQuery::Tcs3472LightLevel(self.tcs)),
        }
    }
}

/// A node of either kind.
#[derive(Clone, Copy, Debug, PartialEq, Eq, Structural)]
pub enum LogicalNode {
    /// A node behind a serial link.
    SerialBacked(SerialNode),
    /// An EnviroPHat on an I2C bus.
    I2cBacked(EnviroPHat),
}

/// The transfer that a measurement request asks of the caller.
#[derive(Debug, PartialEq, Eq)]
pub enum Transfer {
    /// Hand the submission to the worker of its serial link and wait for
    /// the reply.
    Serial(Submission),
    /// Perform the device read on its I2C bus.
    I2c(DeviceQuery),
}

impl LogicalNode {
    /// What a measurement request becomes on this node: the transfer to
    /// perform, or why the node refuses the request.
    pub fn measure(&self, measurement_type: SensorTypeEnum, sensor_id: u32) -> (res: Result<
        Transfer,
        MeasureError,
    >)
        ensures
            match *self {
                LogicalNode::SerialBacked(node) => res matches Ok(Transfer::Serial(submission))
                    && is_measure_request(
                    submission,
                    node.comm_channel.path_id,
                    node.node_public_id,
                    measurement_type,
                    sensor_id,
                ),
                LogicalNode::I2cBacked(node) => match enviro_phat_query(
                    node,
                    measurement_type,
                    sensor_id,
                ) {
                    Ok(query) => res matches Ok(Transfer::I2c(q)) && q == query,
                    Err(e) => res matches Err(x) && x == e,
                },
            },
    {
        match self {
            LogicalNode::SerialBacked(node) => Ok(
                Transfer::Serial(node.measure(measurement_type, sensor_id)),
            ),
            LogicalNode::I2cBacked(node) => match node.measure(measurement_type, sensor_id) {
                Ok(query) => Ok(Transfer::I2c(query)),
                Err(e) => Err(e),
            },
        }
    }
}

} // verus!
