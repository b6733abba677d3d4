//! The frame parser: a state machine that takes one byte at a time and
//! hands out a payload once its checksum has been confirmed.
use vstd::prelude::*;
use crate::crc::{fold_byte, CRC};
use crate::wire::{be16, read_be16, FRAME_HEADER, MIN_FRAME_LENGTH, PROLOGUE_LENGTH};

verus! {

/// Why a byte was refused.
#[derive(Debug, PartialEq, Eq, Clone, Copy)]
pub enum FrameParseError {
    /// A frame must open with `0xAA`; this byte came instead.
    InvalidFrameHeader(u8),
    /// The declared length is below six.
    InvalidFrameLength(u16),
    /// The checksum on the wire differs from the one computed.
    InvalidCRC { calculated: u16, received: u16 },
}

/// The checked payload of one frame: everything between the length field and
/// the checksum.
#[derive(Debug, PartialEq, Eq, Clone)]
pub struct Frame(pub Vec<u8>);

impl View for Frame {
    type V = Seq<u8>;

    open spec fn view(&self) -> Seq<u8> {
        self.0@
    }
}

impl From<Frame> for Vec<u8> {
    /// The payload bytes.
    fn from(frame: Frame) -> (bytes: Vec<u8>) {
        frame.0
    }
}

impl vstd::std_specs::convert::FromSpecImpl<Frame> for Vec<u8> {
    open spec fn obeys_from_spec() -> bool {
        true
    }

    open spec fn from_spec(frame: Frame) -> Vec<u8> {
        frame.0
    }
}

/// Where the parser stands within a frame.
#[derive(Debug, PartialEq)]
pub enum FrameParser {
    /// Nothing read yet: the next byte must be the header.
    WaitingForHeader,
    /// Header read: the next byte is the high byte of the length.
    LengthPart1 { calculated_crc: CRC },
    /// The next byte is the low byte of the length.
    LengthPart2 { calculated_crc: CRC, length_part_1: u8 },
    /// Length read: the next bytes are payload.
    ReceiveFrameData { calculated_crc: CRC, length: u16, data: Vec<u8> },
    /// Payload complete: the next byte is the high byte of the checksum.
    CRCPart1 { calculated_crc: CRC, data: Vec<u8> },
    /// The next byte is the low byte of the checksum.
    CRCPart2 { calculated_crc: CRC, data: Vec<u8>, received_crc_part_1: u8 },
}

/// The parser's state as a mathematical value.
pub enum ParserState {
    WaitingForHeader,
    LengthPart1 { crc: u16 },
    LengthPart2 { crc: u16, length_part_1: u8 },
    ReceiveFrameData { crc: u16, length: u16, data: Seq<u8> },
    CRCPart1 { crc: u16, data: Seq<u8> },
    CRCPart2 { crc: u16, data: Seq<u8>, received_crc_part_1: u8 },
}

/// What one byte leads to.
pub enum Outcome {
    /// The frame goes on, from this state.
    Unfinished(ParserState),
    /// The frame is complete, with this payload.
    Finished(Seq<u8>),
    /// The byte was refused.
    Rejected(FrameParseError),
}

/// The transition of the state machine on one byte.
pub open spec fn step(state: ParserState, value: u8) -> Outcome {
    match state {
        ParserState::WaitingForHeader => {
            if value == FRAME_HEADER {
                Outcome::Unfinished(ParserState::LengthPart1 { crc: FRAME_HEADER as u16 })
            } else {
                Outcome::Rejected(FrameParseError::InvalidFrameHeader(value))
            }
        },
        ParserState::LengthPart1 { crc } => Outcome::Unfinished(
            ParserState::LengthPart2 { crc: fold_byte(crc, value), length_part_1: value },
        ),
        ParserState::LengthPart2 { crc, length_part_1 } => {
            let length = be16(length_part_1, value);
            if length < MIN_FRAME_LENGTH {
                Outcome::Rejected(FrameParseError::InvalidFrameLength(length))
            } else {
                Outcome::Unfinished(
                    ParserState::ReceiveFrameData {
                        crc: fold_byte(crc, value),
                        length,
                        data: Seq::empty(),
                    },
                )
            }
        },
        ParserState::ReceiveFrameData { crc, length, data } => {
            let data = data.push(value);
            let crc = fold_byte(crc, value);
            if data.len() + PROLOGUE_LENGTH == length {
                Outcome::Unfinished(ParserState::CRCPart1 { crc, data })
            } else {
                Outcome::Unfinished(ParserState::ReceiveFrameData { crc, length, data })
            }
        },
        ParserState::CRCPart1 { crc, data } => Outcome::Unfinished(
            ParserState::CRCPart2 { crc, data, received_crc_part_1: value },
        ),
        ParserState::CRCPart2 { crc, data, received_crc_part_1 } => {
            let received = be16(received_crc_part_1, value);
            if received != crc {
                Outcome::Rejected(FrameParseError::InvalidCRC { calculated: crc, received })
            } else {
                Outcome::Finished(data)
            }
        },
    }
}

impl View for FrameParser {
    type V = ParserState;

    open spec fn view(&self) -> ParserState {
        match *self {
            FrameParser::WaitingForHeader => ParserState::WaitingForHeader,
            FrameParser::LengthPart1 { calculated_crc } => ParserState::LengthPart1 {
                crc: calculated_crc@,
            },
            FrameParser::LengthPart2 { calculated_crc, length_part_1 } => ParserState::LengthPart2 {
                crc: calculated_crc@,
                length_part_1,
            },
            FrameParser::ReceiveFrameData {
                calculated_crc,
                length,
                data,
            } => ParserState::ReceiveFrameData { crc: calculated_crc@, length, data: data@ },
            FrameParser::CRCPart1 { calculated_crc, data } => ParserState::CRCPart1 {
                crc: calculated_crc@,
                data: data@,
            },
            FrameParser::CRCPart2 {
                calculated_crc,
                data,
                received_crc_part_1,
            } => ParserState::CRCPart2 { crc: calculated_crc@, data: data@, received_crc_part_1 },
        }
    }
}

/// What a byte that was not refused leads to.
#[derive(Debug, PartialEq)]
pub enum FrameNextByteResult {
    /// The frame goes on: the parser to hand the next byte to.
    Unfinished(FrameParser),
    /// The frame is complete.
    Finished(Frame),
}

/// The outcome that a result of `next_byte` stands for.
pub open spec fn outcome_of(result: Result<FrameNextByteResult, FrameParseError>) -> Outcome {
    match result {
        Ok(FrameNextByteResult::Unfinished(parser)) => Outcome::Unfinished(parser@),
        Ok(FrameNextByteResult::Finished(frame)) => Outcome::Finished(frame@),
        Err(error) => Outcome::Rejected(error),
    }
}

impl FrameNextByteResult {
    /// The frame, if the byte completed one.
    pub fn finished(self) -> (frame: Option<Frame>)
        ensures
            frame == match self {
                FrameNextByteResult::Unfinished(_) => None,
                FrameNextByteResult::Finished(f) => Some(f),
            },
    {
        match self {
            FrameNextByteResult::Unfinished(_) => None,
            FrameNextByteResult::Finished(f) => Some(f),
        }
    }

    /// The parser to go on with, unless the byte completed a frame.
    pub fn unfinished(self) -> (parser: Option<FrameParser>)
        ensures
            parser == match self {
                FrameNextByteResult::Unfinished(u) => Some(u),
                FrameNextByteResult::Finished(_) => None,
            },
    {
        match self {
            FrameNextByteResult::Unfinished(u) => Some(u),
            FrameNextByteResult::Finished(_) => None,
        }
    }
}

impl FrameParser {
    /// A parser that waits for a header.
    pub fn new() -> (parser: FrameParser)
        ensures
            parser@ == ParserState::WaitingForHeader,
    {
        FrameParser::WaitingForHeader
    }

    /// Feeds one byte to the parser.
    ///
    /// The result is the transition that `step` defines: the parser to go on
    /// with, the payload of a frame whose checksum matched, or the reason the
    /// byte was refused. After a completed or refused frame the caller starts
    /// over with a new parser.
    pub fn next_byte(self, value: u8) -> (result: Result<FrameNextByteResult, FrameParseError>)
        ensures
            outcome_of(result) == step(self@, value),
    {
        match self {
            FrameParser::WaitingForHeader => {
                if value == FRAME_HEADER {
                    Ok(
                        FrameNextByteResult::Unfinished(
                            FrameParser::LengthPart1 { calculated_crc: CRC::new(FRAME_HEADER) },
                        ),
                    )
                } else {
                    Err(FrameParseError::InvalidFrameHeader(value))
                }
            },
            FrameParser::LengthPart1 { calculated_crc } => Ok(
                FrameNextByteResult::Unfinished(
                    FrameParser::LengthPart2 {
                        calculated_crc: calculated_crc.calculate_next(value),
                        length_part_1: value,
                    },
                ),
            ),
            FrameParser::LengthPart2 { calculated_crc, length_part_1 } => {
                let length = read_be16(length_part_1, value);
                if length < MIN_FRAME_LENGTH {
                    return Err(FrameParseError::InvalidFrameLength(length));
                }
                // The payload is what the length counts beyond header and length field.
                let capacity = (length - PROLOGUE_LENGTH) as usize;
                Ok(
                    FrameNextByteResult::Unfinished(
                        FrameParser::ReceiveFrameData {
                            calculated_crc: calculated_crc.calculate_next(value),
                            length,
                            data: Vec::with_capacity(capacity),
                        },
                    ),
                )
            },
            FrameParser::ReceiveFrameData { calculated_crc, length, data } => {
                let mut data = data;
                data.push(value);
                let calculated_crc = calculated_crc.calculate_next(value);
                let complete = length >= PROLOGUE_LENGTH && data.len() == (length
                    - PROLOGUE_LENGTH) as usize;
                let next = if complete {
                    FrameParser::CRCPart1 { calculated_crc, data }
                } else {
                    FrameParser::ReceiveFrameData { calculated_crc, length, data }
                };
                Ok(FrameNextByteResult::Unfinished(next))
            },
            FrameParser::CRCPart1 { calculated_crc, data } => Ok(
                FrameNextByteResult::Unfinished(
                    FrameParser::CRCPart2 { calculated_crc, data, received_crc_part_1: value },
                ),
            ),
            FrameParser::CRCPart2 { calculated_crc, data, received_crc_part_1 } => {
                let received = read_be16(received_crc_part_1, value);
                let calculated = calculated_crc.as_u16();
                if received != calculated {
                    Err(FrameParseError::InvalidCRC { calculated, received })
                } else {
                    Ok(FrameNextByteResult::Finished(Frame(data)))
                }
            },
        }
    }
}

/// The state from which parsing goes on after an outcome: the next state
/// while the frame is unfinished, a fresh start once a frame has been
/// completed or a byte refused.
pub open spec fn resume(outcome: Outcome) -> ParserState {
    match outcome {
        Outcome::Unfinished(state) => state,
        Outcome::Finished(_) => ParserState::WaitingForHeader,
        Outcome::Rejected(_) => ParserState::WaitingForHeader,
    }
}

/// The state reached from `start` once all of `bytes` have been fed, with
/// a fresh start after every completed or refused frame.
pub open spec fn state_after(start: ParserState, bytes: Seq<u8>) -> ParserState
    decreases bytes.len(),
{
    if bytes.len() == 0 {
        start
    } else {
        resume(step(state_after(start, bytes.drop_last()), bytes.last()))
    }
}

/// What the byte at index `i` of `bytes` leads to, when the bytes are fed
/// one after the other from `start`.
pub open spec fn outcome_at(start: ParserState, bytes: Seq<u8>, i: int) -> Outcome
    recommends
        0 <= i < bytes.len(),
{
    step(state_after(start, bytes.take(i)), bytes[i])
}

/// Feeding one more byte takes one more step.
pub proof fn lemma_state_after_push(start: ParserState, bytes: Seq<u8>, value: u8)
    ensures
        state_after(start, bytes.push(value)) == resume(step(state_after(start, bytes), value)),
{
    assert(bytes.push(value).drop_last() =~= bytes);
}

/// Feeding two runs of bytes in turn is feeding their concatenation.
pub proof fn lemma_state_after_concat(start: ParserState, first: Seq<u8>, second: Seq<u8>)
    ensures
        state_after(start, first + second) == state_after(state_after(start, first), second),
    decreases second.len(),
{
    if second.len() == 0 {
        assert(first + second =~= first);
    } else {
        lemma_state_after_concat(start, first, second.drop_last());
        assert((first + second).drop_last() =~= first + second.drop_last());
    }
}

/// The outcome of a byte depends on the bytes before it only through the
/// state they lead to.
pub proof fn lemma_outcome_at_concat(
    start: ParserState,
    first: Seq<u8>,
    second: Seq<u8>,
    i: int,
)
    requires
        0 <= i < second.len(),
    ensures
        outcome_at(start, first + second, first.len() + i) == outcome_at(
            state_after(start, first),
            second,
            i,
        ),
{
    assert((first + second).take(first.len() + i) =~= first + second.take(i));
    lemma_state_after_concat(start, first, second.take(i));
}

/// The outcome of a byte does not depend on the bytes after it.
pub proof fn lemma_outcome_at_prefix(start: ParserState, bytes: Seq<u8>, len: int, i: int)
    requires
        0 <= i < len <= bytes.len(),
    ensures
        outcome_at(start, bytes.take(len), i) == outcome_at(start, bytes, i),
{
    assert(bytes.take(len).take(i) =~= bytes.take(i));
}

} // verus!
