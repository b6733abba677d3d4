//! Packets: what the payload of a frame means.
//!
//! A payload opens with the protocol version, which is accepted as it
//! comes, and the command byte. The bytes after the command byte are the
//! command's data. For a distance measurement they are
//!
//! | field        | size | unit                        |
//! |--------------|------|-----------------------------|
//! | data length  | 2    | bytes that follow           |
//! | radar speed  | 1    | 0.05 degrees per second     |
//! | offset angle | 2    | 0.01 degrees                |
//! | start angle  | 2    | 0.01 degrees                |
//! | measurements | 3 each: signal strength, then the distance in 0.25 millimetres |
//!
//! The decoder keeps every quantity as the integer that the sensor sent, so
//! that nothing is rounded here; the table gives the unit of each.
use vstd::prelude::*;
use crate::frame_parser::Frame;
use crate::wire::{be16, read_be16};

verus! {

/// The command byte of a distance measurement.
pub const I3LIDAR_NEW_DISTANCE: u8 = 0xAD;

/// The command byte of a rotation speed report. Its data has no known
/// layout, so the decoder treats it as a command it does not support.
pub const I3LIDAR_LIDAR_SPEED: u8 = 0xAE;

/// Version and command byte.
pub const PAYLOAD_HEADER_LENGTH: usize = 2;

/// The fewest data bytes that the decoder looks at a distance measurement for.
pub const DISTANCE_MIN_LENGTH: usize = 5;

/// The data bytes before the first measurement.
pub const DISTANCE_HEADER_LENGTH: usize = 7;

/// The bytes of one measurement.
pub const MEASUREMENT_LENGTH: usize = 3;

/// Why a payload could not be decoded.
#[derive(Debug, PartialEq, Eq, Clone, Copy)]
pub enum PacketParseError {
    /// Too few bytes; the number is how many there were.
    FrameTooShort(usize),
    /// A command byte that the decoder does not know.
    UnsupportedCommandByte(u8),
    /// The data length field (`expected`) differs from the number of bytes
    /// that follow it (`actual`, of which the low sixteen bits are kept).
    UnexpectedFrameLength { actual: u16, expected: u16 },
}

/// One distance measurement packet, in the sensor's own units.
#[derive(Debug, PartialEq, Eq, Clone)]
pub struct DistancePacket {
    /// Rotation speed, in steps of 0.05 degrees per second.
    pub radar_speed: u8,
    /// Angle of the first measurement, in hundredths of a degree.
    pub start_angle: u16,
    /// Offset angle, in hundredths of a degree.
    pub offset_angle: u16,
    /// The distances, in quarters of a millimetre, in the order measured.
    pub measurements: Vec<u16>,
}

/// A distance packet as a mathematical value.
pub struct DistanceReading {
    pub radar_speed: u8,
    pub start_angle: u16,
    pub offset_angle: u16,
    pub measurements: Seq<u16>,
}

impl View for DistancePacket {
    type V = DistanceReading;

    open spec fn view(&self) -> DistanceReading {
        DistanceReading {
            radar_speed: self.radar_speed,
            start_angle: self.start_angle,
            offset_angle: self.offset_angle,
            measurements: self.measurements@,
        }
    }
}

/// A decoded packet.
#[derive(Debug, PartialEq, Eq, Clone)]
pub enum Packet {
    /// A distance measurement.
    Distance(DistancePacket),
    /// A rotation speed report. The decoder never produces one.
    LidarSpeed,
}

/// A packet as a mathematical value.
pub enum PacketView {
    Distance(DistanceReading),
    LidarSpeed,
}

impl View for Packet {
    type V = PacketView;

    open spec fn view(&self) -> PacketView {
        match *self {
            Packet::Distance(distance) => PacketView::Distance(distance@),
            Packet::LidarSpeed => PacketView::LidarSpeed,
        }
    }
}

/// The number of whole measurements in the data of a distance packet.
pub open spec fn measurement_count(data: Seq<u8>) -> nat {
    if data.len() < DISTANCE_HEADER_LENGTH {
        0
    } else {
        ((data.len() - DISTANCE_HEADER_LENGTH) / (MEASUREMENT_LENGTH as int)) as nat
    }
}

/// The distances in the data of a distance packet. Each measurement is
/// three bytes, of which the first, the signal strength, is passed over;
/// bytes left over at the end that do not make up a measurement are too.
pub open spec fn measurements_of(data: Seq<u8>) -> Seq<u16> {
    Seq::new(
        measurement_count(data),
        |i: int|
            be16(
                data[DISTANCE_HEADER_LENGTH + MEASUREMENT_LENGTH * i + 1],
                data[DISTANCE_HEADER_LENGTH + MEASUREMENT_LENGTH * i + 2],
            ),
    )
}

/// What the data of a distance command decodes to.
///
/// Fewer than five bytes are too short. The length field must then equal
/// the number of bytes that follow it. Data that passes both tests but
/// ends before the start angle is too short as well.
pub open spec fn decode_distance(data: Seq<u8>) -> Result<PacketView, PacketParseError> {
    if data.len() < DISTANCE_MIN_LENGTH {
        Err(PacketParseError::FrameTooShort(data.len() as usize))
    } else if be16(data[0], data[1]) != data.len() - 2 {
        Err(
            PacketParseError::UnexpectedFrameLength {
                actual: ((data.len() - 2) % 0x1_0000) as u16,
                expected: be16(data[0], data[1]),
            },
        )
    } else if data.len() < DISTANCE_HEADER_LENGTH {
        Err(PacketParseError::FrameTooShort(data.len() as usize))
    } else {
        Ok(
            PacketView::Distance(
                DistanceReading {
                    radar_speed: data[2],
                    offset_angle: be16(data[3], data[4]),
                    start_angle: be16(data[5], data[6]),
                    measurements: measurements_of(data),
                },
            ),
        )
    }
}

/// What a payload decodes to.
pub open spec fn decode(payload: Seq<u8>) -> Result<PacketView, PacketParseError> {
    if payload.len() < PAYLOAD_HEADER_LENGTH {
        Err(PacketParseError::FrameTooShort(payload.len() as usize))
    } else if payload[1] == I3LIDAR_NEW_DISTANCE {
        decode_distance(payload.skip(PAYLOAD_HEADER_LENGTH as int))
    } else {
        Err(PacketParseError::UnsupportedCommandByte(payload[1]))
    }
}

/// The mathematical value of the result of a decoder.
pub open spec fn decoded(result: Result<Packet, PacketParseError>) -> Result<
    PacketView,
    PacketParseError,
> {
    match result {
        Ok(packet) => Ok(packet@),
        Err(error) => Err(error),
    }
}

impl Packet {
    /// Decodes the payload of a frame.
    pub fn parse(frame: Frame) -> (result: Result<Packet, PacketParseError>)
        ensures
            decoded(result) == decode(frame@),
    {
        let bytes: Vec<u8> = frame.into();
        let frame_len = bytes.len();
        if frame_len < PAYLOAD_HEADER_LENGTH {
            return Err(PacketParseError::FrameTooShort(frame_len));
        }
        let command_byte = bytes[1];
        let data = &bytes.as_slice()[PAYLOAD_HEADER_LENGTH..frame_len];
        assert(data@ =~= bytes@.skip(PAYLOAD_HEADER_LENGTH as int));
        if command_byte == I3LIDAR_NEW_DISTANCE {
            Packet::parse_distance(data)
        } else {
            Err(PacketParseError::UnsupportedCommandByte(command_byte))
        }
    }

    /// Decodes the data of a distance command: the bytes of a payload that
    /// follow the command byte.
    pub fn parse_distance(data: &[u8]) -> (result: Result<Packet, PacketParseError>)
        ensures
            decoded(result) == decode_distance(data@),
    {
        let actual_length = data.len();
        if actual_length < DISTANCE_MIN_LENGTH {
            return Err(PacketParseError::FrameTooShort(actual_length));
        }
        let effective_data_length = read_be16(data[0], data[1]);
        let following = actual_length - 2;
        if following > 0xFFFF || effective_data_length != following as u16 {
            return Err(
                PacketParseError::UnexpectedFrameLength {
                    actual: (following % 0x1_0000) as u16,
                    expected: effective_data_length,
                },
            );
        }
        if actual_length < DISTANCE_HEADER_LENGTH {
            return Err(PacketParseError::FrameTooShort(actual_length));
        }
        let radar_speed = data[2];
        let offset_angle = read_be16(data[3], data[4]);
        let start_angle = read_be16(data[5], data[6]);

        let count = (actual_length - DISTANCE_HEADER_LENGTH) / MEASUREMENT_LENGTH;
        let mut measurements: Vec<u16> = Vec::with_capacity(count);
        let mut done: usize = 0;
        while done < count
            invariant
                done <= count,
                count == measurement_count(data@),
                DISTANCE_HEADER_LENGTH <= data.len(),
                measurements@ == measurements_of(data@).take(done as int),
            decreases count - done,
        {
            let at = DISTANCE_HEADER_LENGTH + MEASUREMENT_LENGTH * done;
            let distance = read_be16(data[at + 1], data[at + 2]);
            measurements.push(distance);
            done += 1;
            assert(measurements@ =~= measurements_of(data@).take(done as int));
        }
        assert(measurements@ =~= measurements_of(data@));
        Ok(Packet::Distance(DistancePacket { radar_speed, start_angle, offset_angle, measurements }))
    }
}

} // verus!
