//! The layout of a frame on the wire.
//!
//! | field    | size       | content                                   |
//! |----------|------------|-------------------------------------------|
//! | header   | 1          | always `0xAA`                             |
//! | length   | 2          | header, length and payload together       |
//! | payload  | length - 3 | protocol version, command, command data   |
//! | checksum | 2          | wrapping sum of header, length, payload   |
//!
//! Fields of more than one byte are big-endian.
use vstd::prelude::*;
use crate::crc::{checksum_of, lemma_checksum_detects_change, lemma_checksum_push};
use crate::frame_parser::{
    lemma_outcome_at_concat, lemma_outcome_at_prefix, lemma_state_after_push, outcome_at,
    state_after, FrameParseError, Outcome, ParserState,
};

verus! {

/// The byte that opens every frame.
pub const FRAME_HEADER: u8 = 0xAA;

/// The smallest length a frame may declare.
pub const MIN_FRAME_LENGTH: u16 = 6;

/// The bytes that the declared length counts but the payload does not hold:
/// the header and the two length bytes.
pub const PROLOGUE_LENGTH: u16 = 3;

/// The sixteen-bit number whose big-endian bytes are `high`, `low`.
pub open spec fn be16(high: u8, low: u8) -> u16 {
    (high * 256 + low) as u16
}

/// The first of the two big-endian bytes of `value`.
pub open spec fn high_byte(value: u16) -> u8 {
    (value / 256) as u8
}

/// The second of the two big-endian bytes of `value`.
pub open spec fn low_byte(value: u16) -> u8 {
    (value % 256) as u8
}

/// Reads a big-endian sixteen-bit number.
pub fn read_be16(high: u8, low: u8) -> (value: u16)
    ensures
        value == be16(high, low),
{
    let wide: u16 = high as u16;
    assert(wide << 8 == wide * 256) by (bit_vector)
        requires
            wide < 256,
    ;
    (wide << 8) + (low as u16)
}

/// A payload that fits in a frame: at least three bytes, and short enough
/// for the length field.
pub open spec fn payload_fits(payload: Seq<u8>) -> bool {
    MIN_FRAME_LENGTH - PROLOGUE_LENGTH <= payload.len() <= u16::MAX - PROLOGUE_LENGTH
}

/// Header and length field of a frame that declares `length`.
pub open spec fn prologue(length: u16) -> Seq<u8> {
    seq![FRAME_HEADER, high_byte(length), low_byte(length)]
}

/// The bytes of a frame that declares `length`, carries `payload` and ends
/// with `sum` in its checksum field, whether or not `sum` is right.
pub open spec fn sealed_with(length: u16, payload: Seq<u8>, sum: u16) -> Seq<u8> {
    prologue(length) + payload + seq![high_byte(sum), low_byte(sum)]
}

/// The checksum that a frame with this length and payload must carry.
pub open spec fn frame_checksum(length: u16, payload: Seq<u8>) -> u16 {
    checksum_of(prologue(length) + payload)
}

/// The bytes of the well-formed frame that carries `payload`.
pub open spec fn frame_bytes(payload: Seq<u8>) -> Seq<u8> {
    let length = (payload.len() + PROLOGUE_LENGTH) as u16;
    sealed_with(length, payload, frame_checksum(length, payload))
}

/// Splitting a number into its big-endian bytes and reading them back
/// gives the number.
pub proof fn lemma_be16_of_bytes(value: u16)
    ensures
        be16(high_byte(value), low_byte(value)) == value,
{
}

/// Reading two bytes and splitting the result gives the two bytes.
pub proof fn lemma_bytes_of_be16(high: u8, low: u8)
    ensures
        high_byte(be16(high, low)) == high,
        low_byte(be16(high, low)) == low,
{
}

/// The state that a parser started afresh is in after the first `fed`
/// bytes of a frame that declares `length` and carries `payload`.
pub open spec fn state_within(length: u16, payload: Seq<u8>, sum: u16, fed: int) -> ParserState {
    let bytes = sealed_with(length, payload, sum);
    let crc = checksum_of(bytes.take(fed));
    if fed <= 0 {
        ParserState::WaitingForHeader
    } else if fed == 1 {
        ParserState::LengthPart1 { crc }
    } else if fed == 2 {
        ParserState::LengthPart2 { crc, length_part_1: high_byte(length) }
    } else if fed < PROLOGUE_LENGTH + payload.len() {
        ParserState::ReceiveFrameData { crc, length, data: payload.take(fed - PROLOGUE_LENGTH) }
    } else if fed == PROLOGUE_LENGTH + payload.len() {
        ParserState::CRCPart1 { crc: frame_checksum(length, payload), data: payload }
    } else {
        ParserState::CRCPart2 {
            crc: frame_checksum(length, payload),
            data: payload,
            received_crc_part_1: high_byte(sum),
        }
    }
}

/// While a frame is being fed, the parser is in the state that
/// `state_within` names.
pub proof fn lemma_state_within(length: u16, payload: Seq<u8>, sum: u16, fed: int)
    requires
        MIN_FRAME_LENGTH <= length,
        payload.len() == length - PROLOGUE_LENGTH,
        0 <= fed <= payload.len() + 4,
    ensures
        state_after(ParserState::WaitingForHeader, sealed_with(length, payload, sum).take(fed))
            == state_within(length, payload, sum, fed),
    decreases fed,
{
    let bytes = sealed_with(length, payload, sum);
    let fresh = ParserState::WaitingForHeader;
    if fed == 0 {
        assert(bytes.take(0) =~= Seq::<u8>::empty());
    } else {
        let before = bytes.take(fed - 1);
        let value = bytes[fed - 1];
        lemma_state_within(length, payload, sum, fed - 1);
        assert(before.push(value) =~= bytes.take(fed));
        lemma_state_after_push(fresh, before, value);
        lemma_checksum_push(before, value);
        lemma_be16_of_bytes(length);
        if fed == 1 {
            assert(before =~= Seq::<u8>::empty());
            assert(checksum_of(before) == 0);
        } else if fed == 2 {
        } else if fed == 3 {
            assert(payload.take(0) =~= Seq::<u8>::empty());
        } else if fed < PROLOGUE_LENGTH + payload.len() {
            assert(value == payload[fed - 4]);
            assert(payload.take(fed - 4).push(value) =~= payload.take(fed - 3));
        } else if fed == PROLOGUE_LENGTH + payload.len() {
            assert(value == payload[fed - 4]);
            assert(payload.take(fed - 4).push(value) =~= payload);
            assert(bytes.take(fed) =~= prologue(length) + payload);
        } else {
            assert(before =~= prologue(length) + payload);
        }
    }
}

/// What each byte of a frame leads to, whatever stands in its checksum
/// field: every byte but the last is taken without a verdict, and the last
/// completes the frame if the checksum field is right and is refused with
/// `InvalidCRC` if it is not.
pub proof fn lemma_sealed_frame(length: u16, payload: Seq<u8>, sum: u16)
    requires
        MIN_FRAME_LENGTH <= length,
        payload.len() == length - PROLOGUE_LENGTH,
    ensures
        forall|i: int|
            0 <= i < length + 1 ==> #[trigger] outcome_at(
                ParserState::WaitingForHeader,
                sealed_with(length, payload, sum),
                i,
            ) is Unfinished,
        outcome_at(
            ParserState::WaitingForHeader,
            sealed_with(length, payload, sum),
            length + 1,
        ) == if sum == frame_checksum(length, payload) {
            Outcome::Finished(payload)
        } else {
            Outcome::Rejected(
                FrameParseError::InvalidCRC {
                    calculated: frame_checksum(length, payload),
                    received: sum,
                },
            )
        },
{
    let bytes = sealed_with(length, payload, sum);
    let fresh = ParserState::WaitingForHeader;
    lemma_be16_of_bytes(length);
    lemma_be16_of_bytes(sum);
    assert forall|i: int| 0 <= i < length + 1 implies #[trigger] outcome_at(
        fresh,
        bytes,
        i,
    ) is Unfinished by {
        lemma_state_within(length, payload, sum, i);
    }
    lemma_state_within(length, payload, sum, length + 1);
}

/// Feeding the bytes of a well-formed frame to a fresh parser, one at a
/// time, completes exactly one frame, on the last byte and on no other,
/// and that frame is the payload.
pub proof fn lemma_frame_parses(payload: Seq<u8>)
    requires
        payload_fits(payload),
    ensures
        frame_bytes(payload).len() == payload.len() + 5,
        forall|i: int|
            0 <= i < payload.len() + 4 ==> #[trigger] outcome_at(
                ParserState::WaitingForHeader,
                frame_bytes(payload),
                i,
            ) is Unfinished,
        outcome_at(
            ParserState::WaitingForHeader,
            frame_bytes(payload),
            payload.len() as int + 4,
        ) == Outcome::Finished(payload),
        state_after(ParserState::WaitingForHeader, frame_bytes(payload))
            == ParserState::WaitingForHeader,
{
    let length = (payload.len() + PROLOGUE_LENGTH) as u16;
    let sum = frame_checksum(length, payload);
    let bytes = frame_bytes(payload);
    lemma_sealed_frame(length, payload, sum);
    assert(bytes.take(bytes.len() as int) =~= bytes);
    assert(bytes.drop_last() =~= bytes.take(payload.len() as int + 4));
}

/// A byte other than the header, met while waiting for one, is refused
/// with `InvalidFrameHeader`, and the parser still waits for a header.
pub proof fn lemma_non_header_refused(bytes: Seq<u8>)
    requires
        bytes.len() > 0,
        bytes[0] != FRAME_HEADER,
    ensures
        outcome_at(ParserState::WaitingForHeader, bytes, 0) == Outcome::Rejected(
            FrameParseError::InvalidFrameHeader(bytes[0]),
        ),
        state_after(ParserState::WaitingForHeader, bytes.take(1))
            == ParserState::WaitingForHeader,
{
    assert(bytes.take(0) =~= Seq::<u8>::empty());
    assert(bytes.take(1).drop_last() =~= Seq::<u8>::empty());
}

/// A declared length below six is refused with `InvalidFrameLength` as
/// soon as its second byte arrives, whatever bytes follow.
pub proof fn lemma_short_length_refused(high: u8, low: u8, rest: Seq<u8>)
    requires
        be16(high, low) < MIN_FRAME_LENGTH,
    ensures
        outcome_at(ParserState::WaitingForHeader, seq![FRAME_HEADER, high, low] + rest, 2)
            == Outcome::Rejected(FrameParseError::InvalidFrameLength(be16(high, low))),
        state_after(ParserState::WaitingForHeader, seq![FRAME_HEADER, high, low])
            == ParserState::WaitingForHeader,
{
    let fresh = ParserState::WaitingForHeader;
    let head = seq![FRAME_HEADER, high, low];
    let bytes = head + rest;
    let none = Seq::<u8>::empty();
    assert(bytes.take(2) =~= none.push(FRAME_HEADER).push(high));
    assert(head =~= none.push(FRAME_HEADER).push(high).push(low));
    lemma_state_after_push(fresh, none, FRAME_HEADER);
    lemma_state_after_push(fresh, none.push(FRAME_HEADER), high);
    lemma_state_after_push(fresh, none.push(FRAME_HEADER).push(high), low);
}

/// Resynchronisation: once a byte has been refused, the well-formed frame
/// that begins right after it is parsed as if nothing had come before.
pub proof fn lemma_resynchronises(start: ParserState, refused: Seq<u8>, payload: Seq<u8>)
    requires
        refused.len() > 0,
        outcome_at(start, refused, refused.len() - 1) is Rejected,
        payload_fits(payload),
    ensures
        state_after(start, refused) == ParserState::WaitingForHeader,
        forall|i: int|
            0 <= i < payload.len() + 4 ==> #[trigger] outcome_at(
                start,
                refused + frame_bytes(payload),
                refused.len() + i,
            ) is Unfinished,
        outcome_at(
            start,
            refused + frame_bytes(payload),
            refused.len() as int + payload.len() as int + 4,
        ) == Outcome::Finished(payload),
{
    let frame = frame_bytes(payload);
    let stream = refused + frame;
    assert(refused.drop_last() =~= refused.take(refused.len() - 1));
    lemma_frame_parses(payload);
    assert forall|i: int| 0 <= i < payload.len() + 4 implies #[trigger] outcome_at(
        start,
        stream,
        refused.len() + i,
    ) is Unfinished by {
        lemma_outcome_at_concat(start, refused, frame, i);
        assert(outcome_at(ParserState::WaitingForHeader, frame, i) is Unfinished);
    }
    lemma_outcome_at_concat(start, refused, frame, payload.len() as int + 4);
}

/// What a stream that opens with a header and a length of at least six
/// leads to: the bytes up to the checksum field are taken without a
/// verdict, and the second checksum byte decides. The payload is handed out
/// if the checksum field holds the sum of all the bytes before it, and the
/// byte is refused with `InvalidCRC` if it does not.
pub proof fn lemma_stream_verdict(stream: Seq<u8>)
    requires
        stream.len() >= 3,
        stream[0] == FRAME_HEADER,
        MIN_FRAME_LENGTH <= be16(stream[1], stream[2]),
        stream.len() >= be16(stream[1], stream[2]) + 2,
    ensures
        ({
            let length = be16(stream[1], stream[2]) as int;
            let received = be16(stream[length], stream[length + 1]);
            let calculated = checksum_of(stream.take(length));
            &&& forall|i: int|
                0 <= i < length + 1 ==> #[trigger] outcome_at(
                    ParserState::WaitingForHeader,
                    stream,
                    i,
                ) is Unfinished
            &&& outcome_at(ParserState::WaitingForHeader, stream, length + 1) == if received
                == calculated {
                Outcome::Finished(stream.subrange(3, length))
            } else {
                Outcome::Rejected(FrameParseError::InvalidCRC { calculated, received })
            }
        }),
{
    let fresh = ParserState::WaitingForHeader;
    let declared = be16(stream[1], stream[2]);
    let length = declared as int;
    let received = be16(stream[length], stream[length + 1]);
    let payload = stream.subrange(3, length);
    let frame = sealed_with(declared, payload, received);
    lemma_bytes_of_be16(stream[1], stream[2]);
    lemma_bytes_of_be16(stream[length], stream[length + 1]);
    assert(frame =~= stream.take(length + 2));
    assert(prologue(declared) + payload =~= stream.take(length));
    lemma_sealed_frame(declared, payload, received);
    assert forall|i: int| 0 <= i < length + 1 implies #[trigger] outcome_at(
        fresh,
        stream,
        i,
    ) is Unfinished by {
        lemma_outcome_at_prefix(fresh, stream, length + 2, i);
        assert(outcome_at(fresh, frame, i) is Unfinished);
    }
    lemma_outcome_at_prefix(fresh, stream, length + 2, length + 1);
}

/// `value` with the bit of the given index inverted.
pub open spec fn flip_bit(value: u8, bit: u8) -> u8 {
    value ^ (1u8 << bit)
}

/// `bytes` with one bit of the byte at index `at` inverted.
pub open spec fn with_flipped_bit(bytes: Seq<u8>, at: int, bit: u8) -> Seq<u8> {
    bytes.update(at, flip_bit(bytes[at], bit))
}

/// Inverting one of its eight bits changes a byte.
pub proof fn lemma_flip_bit_changes(value: u8, bit: u8)
    requires
        bit < 8,
    ensures
        flip_bit(value, bit) != value,
{
    assert(value ^ (1u8 << bit) != value) by (bit_vector)
        requires
            bit < 8,
    ;
}

/// One inverted bit in a payload byte of a well-formed frame, with the
/// checksum field left as it was, has the frame refused with `InvalidCRC`
/// on its last byte; no byte before that gets a verdict.
pub proof fn lemma_flipped_payload_refused(payload: Seq<u8>, at: int, bit: u8)
    requires
        payload_fits(payload),
        0 <= at < payload.len(),
        bit < 8,
    ensures
        ({
            let damaged = with_flipped_bit(frame_bytes(payload), PROLOGUE_LENGTH + at, bit);
            let body = payload.len() + PROLOGUE_LENGTH;
            &&& forall|i: int|
                0 <= i < body + 1 ==> #[trigger] outcome_at(
                    ParserState::WaitingForHeader,
                    damaged,
                    i,
                ) is Unfinished
            &&& outcome_at(ParserState::WaitingForHeader, damaged, body + 1) == Outcome::Rejected(
                FrameParseError::InvalidCRC {
                    calculated: checksum_of(damaged.take(body)),
                    received: checksum_of(frame_bytes(payload).take(body)),
                },
            )
        }),
{
    let length = (payload.len() + PROLOGUE_LENGTH) as u16;
    let body = payload.len() + PROLOGUE_LENGTH;
    let intact = frame_bytes(payload);
    let damaged = with_flipped_bit(intact, PROLOGUE_LENGTH + at, bit);
    lemma_flip_bit_changes(intact[PROLOGUE_LENGTH + at], bit);
    lemma_be16_of_bytes(length);
    assert(intact.take(body) =~= prologue(length) + payload);
    assert(damaged.take(body) =~= intact.take(body).update(
        PROLOGUE_LENGTH + at,
        flip_bit(intact[PROLOGUE_LENGTH + at], bit),
    ));
    lemma_checksum_detects_change(
        intact.take(body),
        PROLOGUE_LENGTH + at,
        flip_bit(intact[PROLOGUE_LENGTH + at], bit),
    );
    lemma_stream_verdict(damaged);
}

/// One inverted bit in a length byte of a well-formed frame, with the
/// checksum field left as it was. Where the damaged length is still at
/// least six but shorter than the true one, the parser ends the frame
/// early and takes the two bytes that follow the shortened payload for the
/// checksum; unless they happen to spell the sum of the bytes before them,
/// the second of them is refused with `InvalidCRC`.
pub proof fn lemma_flipped_length_refused(payload: Seq<u8>, at: int, bit: u8)
    requires
        payload_fits(payload),
        at == 1 || at == 2,
        bit < 8,
        ({
            let damaged = with_flipped_bit(frame_bytes(payload), at, bit);
            let length = be16(damaged[1], damaged[2]) as int;
            &&& MIN_FRAME_LENGTH <= length < payload.len() + PROLOGUE_LENGTH
            &&& be16(damaged[length], damaged[length + 1]) != checksum_of(damaged.take(length))
        }),
    ensures
        ({
            let damaged = with_flipped_bit(frame_bytes(payload), at, bit);
            let length = be16(damaged[1], damaged[2]) as int;
            &&& forall|i: int|
                0 <= i < length + 1 ==> #[trigger] outcome_at(
                    ParserState::WaitingForHeader,
                    damaged,
                    i,
                ) is Unfinished
            &&& outcome_at(ParserState::WaitingForHeader, damaged, length + 1)
                == Outcome::Rejected(
                FrameParseError::InvalidCRC {
                    calculated: checksum_of(damaged.take(length)),
                    received: be16(damaged[length], damaged[length + 1]),
                },
            )
        }),
{
    let damaged = with_flipped_bit(frame_bytes(payload), at, bit);
    lemma_stream_verdict(damaged);
}

} // verus!
