//! Driver logic for the 3irobotix Delta-2A spinning distance sensor.
//!
//! The sensor streams length-delimited, checksummed frames over a serial
//! link. This crate holds the protocol layer: the checksum, the byte-at-a-time
//! frame parser, the packet decoder and the decisions of the reader loop.
pub mod crc;
pub mod frame;
pub mod frame_parser;
pub mod lidar;
pub mod packet;
pub mod reader;
pub mod wire;
