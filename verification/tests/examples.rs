//! Two whole frames, each a distance measurement, run through every layer.
use delta_2a_lidar::crc::CRC;
use delta_2a_lidar::frame::{Frame as FrameInPlace, FrameReadResult};
use delta_2a_lidar::frame_parser::{Frame, FrameNextByteResult, FrameParser};
use delta_2a_lidar::packet::{DistancePacket, Packet};
use delta_2a_lidar::reader::{LinkEvent, ReaderAction, SensorReader};

/// A frame with 47 measurements.
const FIRST_EXAMPLE: [u8; 155] = [
    0xAA, 0x00, 0x99, 0x00, 0xAD, 0x00, 0x92, 0x82, 0x00, 0x87, 0x69, 0x78, 0x00, 0x00, 0x00, 0x6D,
    0x21, 0x3A, 0x6D, 0x23, 0x78, 0x00, 0x00, 0x00, 0x00, 0x00, 0x00, 0x6D, 0x33, 0x60, 0x6D, 0x32,
    0xF7, 0x6D, 0x32, 0xEB, 0x6D, 0x32, 0xE0, 0x6D, 0x21, 0x88, 0x00, 0x00, 0x00, 0x6D, 0x21, 0x88,
    0x6D, 0x21, 0x8D, 0x6D, 0x21, 0xBF, 0x6D, 0x32, 0xD4, 0x6D, 0x33, 0x02, 0x6D, 0x32, 0xE0, 0x6D,
    0x51, 0x48, 0x6C, 0x51, 0x48, 0x6C, 0x51, 0x48, 0x6C, 0x51, 0x48, 0x6C, 0x50, 0x19, 0x6C, 0x51,
    0x48, 0x6C, 0x51, 0x64, 0x6C, 0x51, 0x64, 0x6C, 0x51, 0x48, 0x6C, 0x51, 0x64, 0x6C, 0x51, 0x48,
    0x6C, 0x51, 0x64, 0x6C, 0x53, 0x2D, 0x6C, 0x59, 0xBA, 0x6C, 0x2F, 0x78, 0x6C, 0x2E, 0xE4, 0x00,
    0x00, 0x00, 0x6C, 0x2E, 0xDE, 0x6C, 0x2E, 0xE4, 0x6C, 0x2F, 0x50, 0x6C, 0x2E, 0xE4, 0x6C, 0x2F,
    0x64, 0x6C, 0x2F, 0x78, 0x6C, 0x5A, 0x0B, 0x6C, 0x5B, 0xFD, 0x6C, 0x5B, 0xD3, 0x6C, 0x5C, 0x28,
    0x6C, 0x5C, 0x28, 0x6C, 0x5B, 0xFD, 0x6C, 0x5E, 0x32, 0x35, 0xBC,
];

/// A frame with 300 measurements, long enough for its checksum to wrap.
const SECOND_EXAMPLE: [u8; 914] = [
    0xAA, 0x03, 0x90, 0x00, 0xAD, 0x03, 0x89, 0x84, 0x00, 0x5A, 0x11, 0x94, 0x34, 0x11, 0x30, 0x34,
    0x11, 0x55, 0x34, 0x11, 0x7A, 0x34, 0x11, 0x9F, 0x34, 0x11, 0xC4, 0x34, 0x11, 0xE9, 0x34, 0x12,
    0x0E, 0x34, 0x12, 0x33, 0x34, 0x12, 0x58, 0x34, 0x12, 0x7D, 0x34, 0x12, 0xA2, 0x34, 0x12, 0xC7,
    0x34, 0x12, 0xEC, 0x34, 0x13, 0x11, 0x34, 0x13, 0x36, 0x34, 0x13, 0x5B, 0x34, 0x13, 0x80, 0x34,
    0x13, 0xA5, 0x34, 0x13, 0xCA, 0x34, 0x13, 0xEF, 0x33, 0x14, 0x14, 0x33, 0x14, 0x39, 0x33, 0x14,
    0x5E, 0x33, 0x14, 0x83, 0x33, 0x14, 0xA8, 0x33, 0x14, 0xCD, 0x33, 0x14, 0xF2, 0x33, 0x15, 0x17,
    0x33, 0x15, 0x3C, 0x33, 0x15, 0x61, 0x33, 0x15, 0x86, 0x33, 0x15, 0xAB, 0x33, 0x15, 0xD0, 0x33,
    0x15, 0xF5, 0x33, 0x16, 0x1A, 0x33, 0x16, 0x3F, 0x33, 0x16, 0x64, 0x33, 0x16, 0x89, 0x33, 0x16,
    0xAE, 0x33, 0x16, 0xD3, 0x33, 0x16, 0xF8, 0x33, 0x17, 0x1D, 0x33, 0x17, 0x42, 0x33, 0x17, 0x67,
    0x33, 0x17, 0x8C, 0x33, 0x17, 0xB1, 0x33, 0x17, 0xD6, 0x33, 0x17, 0xFB, 0x33, 0x18, 0x20, 0x33,
    0x18, 0x45, 0x33, 0x18, 0x6A, 0x33, 0x18, 0x8F, 0x33, 0x18, 0xB4, 0x33, 0x18, 0xD9, 0x33, 0x18,
    0xFE, 0x33, 0x19, 0x23, 0x33, 0x19, 0x48, 0x33, 0x19, 0x6D, 0x33, 0x19, 0x92, 0x33, 0x19, 0xB7,
    0x33, 0x19, 0xDC, 0x33, 0x1A, 0x01, 0x33, 0x1A, 0x26, 0x33, 0x1A, 0x4B, 0x33, 0x1A, 0x70, 0x33,
    0x1A, 0x95, 0x33, 0x1A, 0xBA, 0x33, 0x1A, 0xDF, 0x33, 0x1B, 0x04, 0x33, 0x1B, 0x29, 0x33, 0x1B,
    0x4E, 0x33, 0x1B, 0x73, 0x33, 0x1B, 0x98, 0x33, 0x1B, 0xBD, 0x33, 0x1B, 0xE2, 0x33, 0x1C, 0x07,
    0x33, 0x1C, 0x2C, 0x33, 0x1C, 0x51, 0x33, 0x1C, 0x76, 0x33, 0x1C, 0x9B, 0x33, 0x1C, 0xC0, 0x33,
    0x1C, 0xE5, 0x33, 0x1D, 0x0A, 0x33, 0x1D, 0x2F, 0x33, 0x1D, 0x54, 0x33, 0x1D, 0x79, 0x33, 0x1D,
    0x9E, 0x33, 0x1D, 0xC3, 0x33, 0x1D, 0xE8, 0x33, 0x1E, 0x0D, 0x33, 0x1E, 0x32, 0x33, 0x1E, 0x57,
    0x33, 0x1E, 0x7C, 0x33, 0x1E, 0xA1, 0x33, 0x1E, 0xC6, 0x33, 0x1E, 0xEB, 0x33, 0x1F, 0x10, 0x33,
    0x1F, 0x35, 0x33, 0x1F, 0x5A, 0x33, 0x1F, 0x7F, 0x33, 0x1F, 0xA4, 0x33, 0x1F, 0xC9, 0x33, 0x1F,
    0xEE, 0x33, 0x20, 0x13, 0x33, 0x20, 0x38, 0x33, 0x20, 0x5D, 0x33, 0x20, 0x82, 0x33, 0x20, 0xA7,
    0x33, 0x20, 0xCC, 0x33, 0x20, 0xF1, 0x33, 0x21, 0x16, 0x33, 0x21, 0x3B, 0x33, 0x21, 0x60, 0x33,
    0x21, 0x85, 0x33, 0x21, 0xAA, 0x33, 0x21, 0xCF, 0x33, 0x21, 0xF4, 0x33, 0x22, 0x19, 0x33, 0x22,
    0x3E, 0x33, 0x22, 0x63, 0x33, 0x22, 0x88, 0x33, 0x22, 0xAD, 0x33, 0x22, 0xD2, 0x33, 0x22, 0xF7,
    0x33, 0x23, 0x1C, 0x33, 0x23, 0x41, 0x33, 0x23, 0x66, 0x33, 0x23, 0x8B, 0x33, 0x23, 0xB0, 0x33,
    0x23, 0xD5, 0x33, 0x23, 0xFA, 0x33, 0x24, 0x1F, 0x33, 0x24, 0x44, 0x33, 0x24, 0x69, 0x33, 0x24,
    0x8E, 0x33, 0x24, 0xB3, 0x33, 0x24, 0xD8, 0x33, 0x24, 0xFD, 0x33, 0x25, 0x22, 0x33, 0x25, 0x47,
    0x33, 0x25, 0x6C, 0x33, 0x25, 0x91, 0x33, 0x25, 0xB6, 0x33, 0x25, 0xDB, 0x33, 0x26, 0x00, 0x33,
    0x26, 0x25, 0x33, 0x26, 0x4A, 0x33, 0x26, 0x6F, 0x33, 0x26, 0x94, 0x33, 0x26, 0xB9, 0x33, 0x26,
    0xDE, 0x33, 0x27, 0x03, 0x33, 0x27, 0x28, 0x33, 0x27, 0x4D, 0x33, 0x27, 0x72, 0x33, 0x27, 0x97,
    0x33, 0x27, 0xBC, 0x33, 0x27, 0xE1, 0x33, 0x28, 0x06, 0x33, 0x28, 0x2B, 0x33, 0x28, 0x50, 0x33,
    0x28, 0x75, 0x33, 0x28, 0x9A, 0x33, 0x28, 0xBF, 0x33, 0x28, 0xE4, 0x33, 0x29, 0x09, 0x33, 0x29,
    0x2E, 0x33, 0x29, 0x53, 0x33, 0x29, 0x78, 0x33, 0x29, 0x9D, 0x33, 0x29, 0xC2, 0x33, 0x29, 0xE7,
    0x33, 0x2A, 0x0C, 0x33, 0x2A, 0x31, 0x33, 0x2A, 0x56, 0x33, 0x2A, 0x7B, 0x33, 0x2A, 0xA0, 0x33,
    0x2A, 0xC5, 0x33, 0x2A, 0xEA, 0x33, 0x2B, 0x0F, 0x33, 0x2B, 0x34, 0x33, 0x2B, 0x59, 0x33, 0x2B,
    0x7E, 0x33, 0x2B, 0xA3, 0x33, 0x2B, 0xC8, 0x33, 0x2B, 0xED, 0x33, 0x2C, 0x12, 0x33, 0x2C, 0x37,
    0x33, 0x2C, 0x5C, 0x33, 0x2C, 0x81, 0x33, 0x2C, 0xA6, 0x33, 0x2C, 0xCB, 0x33, 0x2C, 0xF0, 0x33,
    0x2D, 0x15, 0x33, 0x2D, 0x3A, 0x33, 0x2D, 0x5F, 0x33, 0x2D, 0x84, 0x33, 0x2D, 0xA9, 0x33, 0x2D,
    0xCE, 0x33, 0x2D, 0xF3, 0x33, 0x2E, 0x18, 0x33, 0x2E, 0x3D, 0x33, 0x2E, 0x62, 0x33, 0x2E, 0x87,
    0x33, 0x2E, 0xAC, 0x33, 0x2E, 0xD1, 0x33, 0x2E, 0xF6, 0x33, 0x2F, 0x1B, 0x33, 0x2F, 0x40, 0x33,
    0x2F, 0x65, 0x33, 0x2F, 0x8A, 0x33, 0x2F, 0xAF, 0x33, 0x2F, 0xD4, 0x33, 0x2F, 0xF9, 0x33, 0x30,
    0x1E, 0x33, 0x30, 0x43, 0x33, 0x30, 0x68, 0x33, 0x30, 0x8D, 0x33, 0x30, 0xB2, 0x33, 0x30, 0xD7,
    0x33, 0x30, 0xFC, 0x33, 0x31, 0x21, 0x33, 0x31, 0x46, 0x33, 0x31, 0x6B, 0x33, 0x31, 0x90, 0x33,
    0x31, 0xB5, 0x33, 0x31, 0xDA, 0x33, 0x31, 0xFF, 0x33, 0x32, 0x24, 0x33, 0x32, 0x49, 0x33, 0x32,
    0x6E, 0x33, 0x32, 0x93, 0x33, 0x32, 0xB8, 0x33, 0x32, 0xDD, 0x33, 0x33, 0x02, 0x33, 0x33, 0x27,
    0x33, 0x33, 0x4C, 0x33, 0x33, 0x71, 0x33, 0x33, 0x96, 0x33, 0x33, 0xBB, 0x33, 0x33, 0xE0, 0x33,
    0x34, 0x05, 0x33, 0x34, 0x2A, 0x33, 0x34, 0x4F, 0x33, 0x34, 0x74, 0x33, 0x34, 0x99, 0x33, 0x34,
    0xBE, 0x33, 0x34, 0xE3, 0x33, 0x35, 0x08, 0x33, 0x35, 0x2D, 0x33, 0x35, 0x52, 0x33, 0x35, 0x77,
    0x33, 0x35, 0x9C, 0x33, 0x35, 0xC1, 0x33, 0x35, 0xE6, 0x33, 0x36, 0x0B, 0x33, 0x36, 0x30, 0x33,
    0x36, 0x55, 0x33, 0x36, 0x7A, 0x33, 0x36, 0x9F, 0x33, 0x36, 0xC4, 0x33, 0x36, 0xE9, 0x33, 0x37,
    0x0E, 0x33, 0x37, 0x33, 0x33, 0x37, 0x58, 0x33, 0x37, 0x7D, 0x33, 0x37, 0xA2, 0x33, 0x37, 0xC7,
    0x33, 0x37, 0xEC, 0x33, 0x38, 0x11, 0x33, 0x38, 0x36, 0x33, 0x38, 0x5B, 0x33, 0x38, 0x80, 0x33,
    0x38, 0xA5, 0x33, 0x38, 0xCA, 0x33, 0x38, 0xEF, 0x33, 0x39, 0x14, 0x33, 0x39, 0x39, 0x33, 0x39,
    0x5E, 0x33, 0x39, 0x83, 0x33, 0x39, 0xA8, 0x33, 0x39, 0xCD, 0x33, 0x39, 0xF2, 0x33, 0x3A, 0x17,
    0x33, 0x3A, 0x3C, 0x33, 0x3A, 0x61, 0x33, 0x3A, 0x86, 0x33, 0x3A, 0xAB, 0x33, 0x3A, 0xD0, 0x33,
    0x3A, 0xF5, 0x33, 0x3B, 0x1A, 0x33, 0x3B, 0x3F, 0x33, 0x3B, 0x64, 0x33, 0x3B, 0x89, 0x33, 0x3B,
    0xAE, 0x33, 0x3B, 0xD3, 0x33, 0x3B, 0xF8, 0x33, 0x3C, 0x1D, 0x33, 0x3C, 0x42, 0x33, 0x3C, 0x67,
    0x02, 0x2C,
];

/// A distance packet in degrees per second, degrees and millimetres.
#[derive(Debug, PartialEq)]
struct DistanceValues {
    radar_speed: f32,
    start_angle: f32,
    offset_angle: f32,
    measurements: Vec<f32>,
}

fn in_units(packet: &DistancePacket) -> DistanceValues {
    DistanceValues {
        radar_speed: 0.05f32 * packet.radar_speed as f32,
        start_angle: packet.start_angle as f32 * 0.01f32,
        offset_angle: packet.offset_angle as f32 * 0.01f32,
        measurements: packet.measurements.iter().map(|raw| *raw as f32 * 0.25f32).collect(),
    }
}

fn test_crc_example(example: &[u8], expected_crc: u16) {
    // Ignore the last 2 bytes because they're part of the CRC
    let crc = CRC::from_bytes(&example[..example.len() - 2]);
    assert_eq!(expected_crc, crc.as_u16())
}

#[test]
fn crc_example_1() {
    test_crc_example(&FIRST_EXAMPLE, 0x35BC);
}

#[test]
fn crc_example_2() {
    test_crc_example(&SECOND_EXAMPLE, 0x022C);
}

#[test]
fn second_example_checksum_wraps() {
    let plain: u32 = SECOND_EXAMPLE[..SECOND_EXAMPLE.len() - 2].iter().map(|b| *b as u32).sum();
    assert_eq!(0x1_022C, plain);
    assert_eq!([0x02, 0x2C], SECOND_EXAMPLE[SECOND_EXAMPLE.len() - 2..]);
}

fn feed_all(example_bytes: &[u8]) -> FrameNextByteResult {
    example_bytes
        .iter()
        .fold(FrameNextByteResult::Unfinished(FrameParser::new()), |acc, current_byte| match acc {
            FrameNextByteResult::Finished(frame) => FrameNextByteResult::Finished(frame),
            FrameNextByteResult::Unfinished(frame_parser) => frame_parser.next_byte(*current_byte).expect("Should not fail"),
        })
}

fn test_frame_example(example_bytes: &[u8]) {
    let result = feed_all(example_bytes);

    assert!(matches!(result, FrameNextByteResult::Finished(_)));
}

#[test]
fn frame_parser_example_1() {
    test_frame_example(&FIRST_EXAMPLE);
}

#[test]
fn frame_parser_example_2() {
    test_frame_example(&SECOND_EXAMPLE);
}

#[test]
fn example_finishes_on_the_last_byte_only() {
    for example in [&FIRST_EXAMPLE[..], &SECOND_EXAMPLE[..]] {
        let mut parser = FrameParser::new();
        let mut finished_at = Vec::new();
        for (i, byte) in example.iter().enumerate() {
            match parser.next_byte(*byte).expect("Should not fail") {
                FrameNextByteResult::Unfinished(next) => parser = next,
                FrameNextByteResult::Finished(frame) => {
                    finished_at.push(i);
                    assert_eq!(Frame(example[3..example.len() - 2].to_vec()), frame);
                    parser = FrameParser::new();
                }
            }
        }
        assert_eq!(vec![example.len() - 1], finished_at);
    }
}

fn first_example_package() -> DistancePacket {
    let frame = feed_all(&FIRST_EXAMPLE).finished().unwrap();

    let packet = Packet::parse(frame).unwrap();

    match packet {
        Packet::Distance(distance_packet) => distance_packet,
        Packet::LidarSpeed => panic!("First example is distance, not lidar speed"),
    }
}

#[test]
fn test_example_1_radar_speed() {
    let packet = first_example_package();

    assert_eq!(
        DistanceValues {
            radar_speed: 6.5f32,
            start_angle: 270.0f32,
            offset_angle: 1.35,
            measurements: vec![
                0f32, 2126.5f32, 2270f32, 0f32, 0f32, 3288f32, 3261.75f32, 3258.75f32, 3256f32, 2146f32, 0f32, 2146f32, 2147.25f32, 2159.75f32, 3253f32,
                3264.5f32, 3256f32, 5202f32, 5202f32, 5202f32, 5202f32, 5126.25f32, 5202f32, 5209f32, 5209f32, 5202f32, 5209f32, 5202f32, 5209f32,
                5323.25f32, 5742.5f32, 3038f32, 3001f32, 0f32, 2999.5f32, 3001f32, 3028f32, 3001f32, 3033f32, 3038f32, 5762.75f32, 5887.25f32, 5876.75f32,
                5898f32, 5898f32, 5887.25f32, 6028.5
            ],
        },
        in_units(&packet)
    );
}

#[test]
fn first_example_in_sensor_units() {
    let packet = first_example_package();

    assert_eq!(130, packet.radar_speed);
    assert_eq!(27000, packet.start_angle);
    assert_eq!(135, packet.offset_angle);
    assert_eq!(47, packet.measurements.len());
    assert_eq!([0, 8506, 9080, 0, 0, 13152], packet.measurements[..6]);
    assert_eq!(24114, packet.measurements[46]);
}

#[test]
fn second_example_is_a_distance_packet() {
    let frame = feed_all(&SECOND_EXAMPLE).finished().unwrap();
    let packet = match Packet::parse(frame).unwrap() {
        Packet::Distance(distance_packet) => distance_packet,
        Packet::LidarSpeed => panic!("Second example is distance, not lidar speed"),
    };
    let expected: Vec<u16> = (0..300u32).map(|i| ((4000 + 37 * i) % 24000 + 400) as u16).collect();

    assert_eq!(
        DistancePacket { radar_speed: 132, start_angle: 4500, offset_angle: 90, measurements: expected },
        packet
    );
    let values = in_units(&packet);
    assert_eq!(45.0f32, values.start_angle);
    assert_eq!(1100.0f32, values.measurements[0]);
    assert_eq!(1109.25f32, values.measurements[1]);
}

#[test]
fn in_place_parser_agrees_on_the_examples() {
    for example in [&FIRST_EXAMPLE[..], &SECOND_EXAMPLE[..]] {
        let mut frame = FrameInPlace::new();
        for (i, byte) in example.iter().enumerate() {
            let result = frame.next_byte(*byte).expect("Should not fail");
            if i + 1 < example.len() {
                assert_eq!(FrameReadResult::Incomplete, result);
            } else {
                assert_eq!(FrameReadResult::Finished(example[3..example.len() - 2].to_vec()), result);
                assert_eq!(FrameInPlace::WaitingForHeader, frame);
            }
        }
    }
}

#[test]
fn one_frame_then_closed_delivers_one_packet() {
    let (reader, packets) = SensorReader::new().drain(&FIRST_EXAMPLE);
    assert_eq!(vec![Packet::Distance(first_example_package())], packets);
    assert!(!reader.is_stopped());

    let (reader, action) = reader.on_event(LinkEvent::Closed);
    assert_eq!(ReaderAction::Stop, action);
    assert!(reader.is_stopped());

    // Whatever is reported afterwards, nothing more is published.
    let (reader, later) = reader.drain(&FIRST_EXAMPLE);
    assert!(later.is_empty());
    let (reader, action) = reader.on_event(LinkEvent::Byte(0xAA));
    assert_eq!(ReaderAction::Stop, action);
    assert!(reader.is_stopped());
}

#[test]
fn both_examples_back_to_back_come_out_in_order() {
    let mut stream = FIRST_EXAMPLE.to_vec();
    stream.extend_from_slice(&SECOND_EXAMPLE);
    let (_, packets) = SensorReader::new().drain(&stream);

    assert_eq!(2, packets.len());
    match (&packets[0], &packets[1]) {
        (Packet::Distance(first), Packet::Distance(second)) => {
            assert_eq!(47, first.measurements.len());
            assert_eq!(300, second.measurements.len());
        }
        _ => panic!("Both examples are distance packets"),
    }
}

#[test]
fn garbage_before_an_example_is_skipped() {
    let mut stream = vec![0x00, 0x42, 0xAA, 0x00, 0x03, 0xFF];
    stream.extend_from_slice(&FIRST_EXAMPLE);
    let (_, packets) = SensorReader::new().drain(&stream);

    assert_eq!(vec![Packet::Distance(first_example_package())], packets);
}
