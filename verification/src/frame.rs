//! The frame parser as a value that is updated in place.
//!
//! `Frame` is the state machine of `FrameParser` for a caller that would
//! rather keep one value and feed it bytes than thread a parser through its
//! loop. It takes the same steps, and it starts afresh by itself after a
//! completed or refused frame.
use vstd::prelude::*;
use crate::crc::CRC;
pub use crate::frame_parser::FrameParseError;
use crate::frame_parser::{resume, step, Outcome, ParserState};
use crate::wire::{read_be16, FRAME_HEADER, MIN_FRAME_LENGTH, PROLOGUE_LENGTH};

verus! {

/// Where the parser stands within a frame.
#[derive(Debug, PartialEq)]
pub enum Frame {
    /// Nothing read yet: the next byte must be the header.
    WaitingForHeader,
    /// Header read: the next byte is the high byte of the length.
    LengthPart1 { calculated_crc: CRC },
    /// The next byte is the low byte of the length.
    LengthPart2 { calculated_crc: CRC, length_part_1: u8 },
    /// Length read: the next bytes are payload.
    ReceiveFrameData { calculated_crc: CRC, length: u16, data: Vec<u8> },
    /// Payload complete: the next byte is the high byte of the checksum.
    CRCPart1 { calculated_crc: CRC, length: u16, data: Vec<u8> },
    /// The next byte is the low byte of the checksum.
    CRCPart2 { calculated_crc: CRC, length: u16, data: Vec<u8>, received_crc_part_1: u8 },
}

impl View for Frame {
    type V = ParserState;

    open spec fn view(&self) -> ParserState {
        match *self {
            Frame::WaitingForHeader => ParserState::WaitingForHeader,
            Frame::LengthPart1 { calculated_crc } => ParserState::LengthPart1 {
                crc: calculated_crc@,
            },
            Frame::LengthPart2 { calculated_crc, length_part_1 } => ParserState::LengthPart2 {
                crc: calculated_crc@,
                length_part_1,
            },
            Frame::ReceiveFrameData { calculated_crc, length, data } => {
                ParserState::ReceiveFrameData { crc: calculated_crc@, length, data: data@ }
            },
            Frame::CRCPart1 { calculated_crc, length, data } => ParserState::CRCPart1 {
                crc: calculated_crc@,
                data: data@,
            },
            Frame::CRCPart2 {
                calculated_crc,
                length,
                data,
                received_crc_part_1,
            } => ParserState::CRCPart2 { crc: calculated_crc@, data: data@, received_crc_part_1 },
        }
    }
}

impl Frame {
    /// The length that the frame at hand declared, once both length bytes
    /// have been read.
    pub open spec fn declared_length(&self) -> Option<u16> {
        match *self {
            Frame::ReceiveFrameData { length, .. } => Some(length),
            Frame::CRCPart1 { length, .. } => Some(length),
            Frame::CRCPart2 { length, .. } => Some(length),
            _ => None,
        }
    }
}

/// The declared length that the parser holds after an outcome: the one just
/// read, the one it held before while the same frame goes on, and none once
/// it waits for a header again.
pub open spec fn length_after(before: Option<u16>, outcome: Outcome) -> Option<u16> {
    match outcome {
        Outcome::Unfinished(ParserState::ReceiveFrameData { length, .. }) => Some(length),
        Outcome::Unfinished(ParserState::CRCPart1 { .. }) => before,
        Outcome::Unfinished(ParserState::CRCPart2 { .. }) => before,
        _ => None,
    }
}

/// What a byte that was not refused leads to.
#[derive(Debug, PartialEq)]
pub enum FrameReadResult {
    /// The frame goes on.
    Incomplete,
    /// The frame is complete, with this payload.
    Finished(Vec<u8>),
}

/// Whether `result` reports `outcome`.
pub open spec fn reports(result: Result<FrameReadResult, FrameParseError>, outcome: Outcome) -> bool {
    match outcome {
        Outcome::Unfinished(_) => result == Ok::<FrameReadResult, FrameParseError>(
            FrameReadResult::Incomplete,
        ),
        Outcome::Finished(payload) => {
            &&& result matches Ok(FrameReadResult::Finished(data))
            &&& data@ == payload
        },
        Outcome::Rejected(error) => result == Err::<FrameReadResult, FrameParseError>(error),
    }
}

impl Frame {
    /// A parser that waits for a header.
    pub fn new() -> (frame: Frame)
        ensures
            frame@ == ParserState::WaitingForHeader,
    {
        Frame::WaitingForHeader
    }

    /// Feeds one byte to the parser.
    ///
    /// The byte leads to what `step` defines for the state at hand, and the
    /// parser is left in the state to go on from: the next state within the
    /// frame, or waiting for a header once a frame has been completed or a
    /// byte refused.
    pub fn next_byte(&mut self, value: u8) -> (result: Result<FrameReadResult, FrameParseError>)
        ensures
            reports(result, step(old(self)@, value)),
            final(self)@ == resume(step(old(self)@, value)),
            final(self).declared_length() == length_after(
                old(self).declared_length(),
                step(old(self)@, value),
            ),
    {
        let mut state = Frame::WaitingForHeader;
        core::mem::swap(self, &mut state);
        match state {
            Frame::WaitingForHeader => {
                if value == FRAME_HEADER {
                    *self = Frame::LengthPart1 { calculated_crc: CRC::new(FRAME_HEADER) };
                    Ok(FrameReadResult::Incomplete)
                } else {
                    Err(FrameParseError::InvalidFrameHeader(value))
                }
            },
            Frame::LengthPart1 { calculated_crc } => {
                *self = Frame::LengthPart2 {
                    calculated_crc: calculated_crc.calculate_next(value),
                    length_part_1: value,
                };
                Ok(FrameReadResult::Incomplete)
            },
            Frame::LengthPart2 { calculated_crc, length_part_1 } => {
                let length = read_be16(length_part_1, value);
                if length < MIN_FRAME_LENGTH {
                    return Err(FrameParseError::InvalidFrameLength(length));
                }
                // The payload is what the length counts beyond header and length field.
                let capacity = (length - PROLOGUE_LENGTH) as usize;
                *self = Frame::ReceiveFrameData {
                    calculated_crc: calculated_crc.calculate_next(value),
                    length,
                    data: Vec::with_capacity(capacity),
                };
                Ok(FrameReadResult::Incomplete)
            },
            Frame::ReceiveFrameData { calculated_crc, length, data } => {
                let mut data = data;
                data.push(value);
                let calculated_crc = calculated_crc.calculate_next(value);
                let complete = length >= PROLOGUE_LENGTH && data.len() == (length
                    - PROLOGUE_LENGTH) as usize;
                if complete {
                    *self = Frame::CRCPart1 { calculated_crc, length, data };
                } else {
                    *self = Frame::ReceiveFrameData { calculated_crc, length, data };
                }
                Ok(FrameReadResult::Incomplete)
            },
            Frame::CRCPart1 { calculated_crc, length, data } => {
                *self = Frame::CRCPart2 { calculated_crc, length, data, received_crc_part_1: value };
                Ok(FrameReadResult::Incomplete)
            },
            Frame::CRCPart2 { calculated_crc, length, data, received_crc_part_1 } => {
                let received = read_be16(received_crc_part_1, value);
                let calculated = calculated_crc.as_u16();
                if received != calculated {
                    Err(FrameParseError::InvalidCRC { calculated, received })
                } else {
                    Ok(FrameReadResult::Finished(data))
                }
            },
        }
    }
}

} // verus!
