//! The decisions of the reader loop.
//!
//! A reader sits between a serial link and a queue of packets. Whoever owns
//! the link reads one byte at a time and tells the reader what happened; the
//! reader answers with what to do next. It keeps the frame parser, starts it
//! afresh after every completed or refused frame, and never goes on once the
//! link or the queue is gone.
use vstd::prelude::*;
use crate::frame_parser::{
    outcome_at, resume, state_after, step, FrameNextByteResult, FrameParseError, FrameParser,
    Outcome, ParserState,
};
use crate::packet::{decode, Packet, PacketParseError, PacketView};
use crate::wire::{frame_bytes, lemma_frame_parses, payload_fits};

verus! {

/// What the owner of the link reports to the reader.
#[derive(Debug, PartialEq, Eq, Clone, Copy)]
pub enum LinkEvent {
    /// A byte arrived.
    Byte(u8),
    /// A read gave no byte this time: a timeout, or a fault that may pass.
    ReadFailed,
    /// The link is closed for good.
    Closed,
    /// Nobody takes packets from the queue any more.
    ConsumerGone,
}

/// What the reader asks of the owner of the link.
#[derive(Debug, PartialEq, Eq, Clone)]
pub enum ReaderAction {
    /// Read the next byte.
    Continue,
    /// Put this packet on the queue, then read on.
    Publish(Packet),
    /// A frame was refused; read on.
    FrameRejected(FrameParseError),
    /// A frame came through but its payload could not be decoded; read on.
    PacketRejected(PacketParseError),
    /// End the loop and close the queue.
    Stop,
}

/// A reader's action as a mathematical value.
pub enum ActionView {
    Continue,
    Publish(PacketView),
    FrameRejected(FrameParseError),
    PacketRejected(PacketParseError),
    Stop,
}

impl View for ReaderAction {
    type V = ActionView;

    open spec fn view(&self) -> ActionView {
        match *self {
            ReaderAction::Continue => ActionView::Continue,
            ReaderAction::Publish(packet) => ActionView::Publish(packet@),
            ReaderAction::FrameRejected(error) => ActionView::FrameRejected(error),
            ReaderAction::PacketRejected(error) => ActionView::PacketRejected(error),
            ReaderAction::Stop => ActionView::Stop,
        }
    }
}

/// A reader as a mathematical value: where its parser stands, and whether
/// it has stopped.
pub struct ReaderState {
    pub parser: ParserState,
    pub stopped: bool,
}

/// The state of a reader that has seen nothing yet.
pub open spec fn initial() -> ReaderState {
    ReaderState { parser: ParserState::WaitingForHeader, stopped: false }
}

/// What a completed frame leads to: its packet is published, or the reason
/// it could not be decoded is reported.
pub open spec fn action_for_frame(payload: Seq<u8>) -> ActionView {
    match decode(payload) {
        Ok(packet) => ActionView::Publish(packet),
        Err(error) => ActionView::PacketRejected(error),
    }
}

/// The reader's next state and its action on one event.
///
/// A stopped reader stays stopped. A failed read changes nothing. A byte
/// goes to the parser, and the parser starts afresh after a completed or
/// refused frame. The end of the link or of the consumer stops the reader.
pub open spec fn react(state: ReaderState, event: LinkEvent) -> (ReaderState, ActionView) {
    if state.stopped {
        (state, ActionView::Stop)
    } else {
        match event {
            LinkEvent::Byte(value) => {
                let outcome = step(state.parser, value);
                let next = ReaderState { parser: resume(outcome), stopped: false };
                match outcome {
                    Outcome::Unfinished(_) => (next, ActionView::Continue),
                    Outcome::Finished(payload) => (next, action_for_frame(payload)),
                    Outcome::Rejected(error) => (next, ActionView::FrameRejected(error)),
                }
            },
            LinkEvent::ReadFailed => (state, ActionView::Continue),
            LinkEvent::Closed => (
                ReaderState { parser: state.parser, stopped: true },
                ActionView::Stop,
            ),
            LinkEvent::ConsumerGone => (
                ReaderState { parser: state.parser, stopped: true },
                ActionView::Stop,
            ),
        }
    }
}

/// The reader's state after a run of events.
pub open spec fn reader_after(start: ReaderState, events: Seq<LinkEvent>) -> ReaderState
    decreases events.len(),
{
    if events.len() == 0 {
        start
    } else {
        react(reader_after(start, events.drop_last()), events.last()).0
    }
}

/// The packets that the reader publishes over a run of events, in order.
pub open spec fn delivered(start: ReaderState, events: Seq<LinkEvent>) -> Seq<PacketView>
    decreases events.len(),
{
    if events.len() == 0 {
        Seq::empty()
    } else {
        let before = delivered(start, events.drop_last());
        match react(reader_after(start, events.drop_last()), events.last()).1 {
            ActionView::Publish(packet) => before.push(packet),
            _ => before,
        }
    }
}

/// The events of a link that hands over `bytes`, one by one, without a
/// failed read.
pub open spec fn byte_events(bytes: Seq<u8>) -> Seq<LinkEvent> {
    Seq::new(bytes.len(), |i: int| LinkEvent::Byte(bytes[i]))
}

/// The mathematical values of a run of packets.
pub open spec fn packet_views(packets: Seq<Packet>) -> Seq<PacketView> {
    Seq::new(packets.len(), |i: int| packets[i]@)
}

/// The reader of one link.
#[derive(Debug, PartialEq)]
pub struct SensorReader {
    parser: FrameParser,
    stopped: bool,
}

impl View for SensorReader {
    type V = ReaderState;

    closed spec fn view(&self) -> ReaderState {
        ReaderState { parser: self.parser@, stopped: self.stopped }
    }
}

impl SensorReader {
    /// A reader that has seen nothing yet.
    pub fn new() -> (reader: SensorReader)
        ensures
            reader@ == initial(),
    {
        SensorReader { parser: FrameParser::new(), stopped: false }
    }

    /// Whether the reader has stopped for good.
    pub fn is_stopped(&self) -> (stopped: bool)
        ensures
            stopped == self@.stopped,
    {
        self.stopped
    }

    /// Takes one event and says what to do next.
    pub fn on_event(self, event: LinkEvent) -> (next: (SensorReader, ReaderAction))
        ensures
            next.0@ == react(self@, event).0,
            next.1@ == react(self@, event).1,
    {
        if self.stopped {
            return (self, ReaderAction::Stop);
        }
        match event {
            LinkEvent::Byte(value) => {
                match self.parser.next_byte(value) {
                    Ok(FrameNextByteResult::Unfinished(parser)) => (
                        SensorReader { parser, stopped: false },
                        ReaderAction::Continue,
                    ),
                    Ok(FrameNextByteResult::Finished(frame)) => {
                        let action = match Packet::parse(frame) {
                            Ok(packet) => ReaderAction::Publish(packet),
                            Err(error) => ReaderAction::PacketRejected(error),
                        };
                        (SensorReader::new(), action)
                    },
                    Err(error) => (SensorReader::new(), ReaderAction::FrameRejected(error)),
                }
            },
            LinkEvent::ReadFailed => (self, ReaderAction::Continue),
            LinkEvent::Closed => (
                SensorReader { parser: self.parser, stopped: true },
                ReaderAction::Stop,
            ),
            LinkEvent::ConsumerGone => (
                SensorReader { parser: self.parser, stopped: true },
                ReaderAction::Stop,
            ),
        }
    }

    /// Runs the loop over bytes that are already in memory: feeds each of
    /// them as an arrived byte and collects the packets to publish, in order.
    pub fn drain(self, bytes: &[u8]) -> (end: (SensorReader, Vec<Packet>))
        ensures
            end.0@ == reader_after(self@, byte_events(bytes@)),
            packet_views(end.1@) == delivered(self@, byte_events(bytes@)),
    {
        let ghost start = self@;
        let mut reader = self;
        let mut packets: Vec<Packet> = Vec::new();
        let mut i: usize = 0;
        assert(byte_events(bytes@.take(0)) =~= Seq::<LinkEvent>::empty());
        assert(packet_views(packets@) =~= Seq::<PacketView>::empty());
        while i < bytes.len()
            invariant
                i <= bytes.len(),
                reader@ == reader_after(start, byte_events(bytes@.take(i as int))),
                packet_views(packets@) == delivered(start, byte_events(bytes@.take(i as int))),
            decreases bytes.len() - i,
        {
            let ghost before = byte_events(bytes@.take(i as int));
            let ghost seen = packet_views(packets@);
            let (next, action) = reader.on_event(LinkEvent::Byte(bytes[i]));
            reader = next;
            proof {
                let now = byte_events(bytes@.take(i + 1));
                assert(now.drop_last() =~= before);
                assert(now.last() == LinkEvent::Byte(bytes[i as int]));
            }
            match action {
                ReaderAction::Publish(packet) => {
                    packets.push(packet);
                    assert(packet_views(packets@) =~= seen.push(packet@));
                },
                _ => {},
            }
            i += 1;
        }
        assert(bytes@.take(i as int) =~= bytes@);
        (reader, packets)
    }
}

/// A stopped reader stays stopped and publishes nothing, whatever follows.
pub proof fn lemma_stopped_for_good(start: ReaderState, events: Seq<LinkEvent>)
    requires
        start.stopped,
    ensures
        reader_after(start, events) == start,
        delivered(start, events) == Seq::<PacketView>::empty(),
    decreases events.len(),
{
    if events.len() > 0 {
        lemma_stopped_for_good(start, events.drop_last());
    }
}

/// The end of the link and the end of the consumer both stop the reader,
/// at once and with nothing published.
pub proof fn lemma_end_stops(state: ReaderState, event: LinkEvent)
    requires
        event == LinkEvent::Closed || event == LinkEvent::ConsumerGone,
    ensures
        react(state, event).0.stopped,
        react(state, event).1 == ActionView::Stop,
{
}

/// Running over two runs of events in turn is running over both together.
pub proof fn lemma_run_concat(start: ReaderState, first: Seq<LinkEvent>, second: Seq<LinkEvent>)
    ensures
        reader_after(start, first + second) == reader_after(reader_after(start, first), second),
        delivered(start, first + second) == delivered(start, first) + delivered(
            reader_after(start, first),
            second,
        ),
    decreases second.len(),
{
    if second.len() == 0 {
        assert(first + second =~= first);
        assert(delivered(start, first) + Seq::<PacketView>::empty() =~= delivered(start, first));
    } else {
        lemma_run_concat(start, first, second.drop_last());
        assert((first + second).drop_last() =~= first + second.drop_last());
        assert((first + second).last() == second.last());
        let middle = reader_after(start, first);
        let head = delivered(start, first);
        let tail = delivered(middle, second.drop_last());
        match react(reader_after(middle, second.drop_last()), second.last()).1 {
            ActionView::Publish(packet) => {
                assert((head + tail).push(packet) =~= head + tail.push(packet));
            },
            _ => {},
        }
    }
}

/// While bytes arrive and the reader has not stopped, its parser moves as
/// the frame parser does, with a fresh start after every frame.
pub proof fn lemma_reader_follows_parser(start: ReaderState, bytes: Seq<u8>)
    requires
        !start.stopped,
    ensures
        reader_after(start, byte_events(bytes)) == (ReaderState {
            parser: state_after(start.parser, bytes),
            stopped: false,
        }),
    decreases bytes.len(),
{
    if bytes.len() > 0 {
        lemma_reader_follows_parser(start, bytes.drop_last());
        assert(byte_events(bytes).drop_last() =~= byte_events(bytes.drop_last()));
        assert(byte_events(bytes).last() == LinkEvent::Byte(bytes.last()));
    }
}

/// A run of bytes on none of which a frame is completed publishes nothing.
pub proof fn lemma_nothing_before_a_frame_ends(start: ReaderState, bytes: Seq<u8>)
    requires
        !start.stopped,
        forall|i: int|
            0 <= i < bytes.len() ==> !(#[trigger] outcome_at(
                start.parser,
                bytes,
                i,
            ) is Finished),
    ensures
        delivered(start, byte_events(bytes)) == Seq::<PacketView>::empty(),
    decreases bytes.len(),
{
    if bytes.len() > 0 {
        let before = bytes.drop_last();
        let last = bytes.len() - 1;
        assert forall|i: int| 0 <= i < before.len() implies !(#[trigger] outcome_at(
            start.parser,
            before,
            i,
        ) is Finished) by {
            assert(before.take(i) =~= bytes.take(i));
            assert(!(outcome_at(start.parser, bytes, i) is Finished));
        }
        lemma_nothing_before_a_frame_ends(start, before);
        lemma_reader_follows_parser(start, before);
        assert(byte_events(bytes).drop_last() =~= byte_events(before));
        assert(byte_events(bytes).last() == LinkEvent::Byte(bytes.last()));
        assert(bytes.take(last) =~= before);
        assert(!(outcome_at(start.parser, bytes, last) is Finished));
    }
}

/// The events of two runs of bytes, one after the other.
pub proof fn lemma_byte_events_concat(first: Seq<u8>, second: Seq<u8>)
    ensures
        byte_events(first + second) == byte_events(first) + byte_events(second),
{
    assert(byte_events(first + second) =~= byte_events(first) + byte_events(second));
}

/// A well-formed frame that arrives at a reader that has seen nothing, or
/// has just dealt with a frame, leaves it as it was. Its packet is
/// published if the payload decodes, and nothing is published if not.
pub proof fn lemma_frame_delivers(payload: Seq<u8>)
    requires
        payload_fits(payload),
    ensures
        reader_after(initial(), byte_events(frame_bytes(payload))) == initial(),
        delivered(initial(), byte_events(frame_bytes(payload))) == match decode(payload) {
            Ok(packet) => seq![packet],
            Err(_) => Seq::empty(),
        },
{
    let frame = frame_bytes(payload);
    let body = frame.drop_last();
    let events = byte_events(frame);
    let fresh = ParserState::WaitingForHeader;
    lemma_frame_parses(payload);
    assert forall|i: int| 0 <= i < body.len() implies !(#[trigger] outcome_at(fresh, body, i)
        is Finished) by {
        assert(body.take(i) =~= frame.take(i));
        assert(outcome_at(fresh, frame, i) is Unfinished);
    }
    lemma_nothing_before_a_frame_ends(initial(), body);
    lemma_reader_follows_parser(initial(), body);
    lemma_reader_follows_parser(initial(), frame);
    assert(events.drop_last() =~= byte_events(body));
    assert(events.last() == LinkEvent::Byte(frame.last()));
    assert(body =~= frame.take(payload.len() as int + 4));
    match decode(payload) {
        Ok(packet) => {
            assert(delivered(initial(), events) =~= seq![packet]);
        },
        Err(_) => {},
    }
}

/// Packets come out in the order in which their frames arrive: of two
/// well-formed frames that follow each other on the link, the packet of
/// the first is published before that of the second.
pub proof fn lemma_frames_in_order(first: Seq<u8>, second: Seq<u8>)
    requires
        payload_fits(first),
        payload_fits(second),
        decode(first) is Ok,
        decode(second) is Ok,
    ensures
        delivered(initial(), byte_events(frame_bytes(first) + frame_bytes(second))) == seq![
            decode(first)->Ok_0,
            decode(second)->Ok_0,
        ],
{
    lemma_byte_events_concat(frame_bytes(first), frame_bytes(second));
    lemma_run_concat(
        initial(),
        byte_events(frame_bytes(first)),
        byte_events(frame_bytes(second)),
    );
    lemma_frame_delivers(first);
    lemma_frame_delivers(second);
    assert(seq![decode(first)->Ok_0] + seq![decode(second)->Ok_0] =~= seq![
        decode(first)->Ok_0,
        decode(second)->Ok_0,
    ]);
}

/// A link that hands over one well-formed frame whose payload decodes, and
/// then closes: the reader publishes that one packet, stops when the link
/// closes, and publishes nothing more whatever is reported to it later.
pub proof fn lemma_one_frame_then_closed(payload: Seq<u8>, later: Seq<LinkEvent>)
    requires
        payload_fits(payload),
        decode(payload) is Ok,
    ensures
        delivered(initial(), byte_events(frame_bytes(payload))) == seq![decode(payload)->Ok_0],
        react(reader_after(initial(), byte_events(frame_bytes(payload))), LinkEvent::Closed).1
            == ActionView::Stop,
        reader_after(
            initial(),
            byte_events(frame_bytes(payload)).push(LinkEvent::Closed) + later,
        ).stopped,
        delivered(initial(), byte_events(frame_bytes(payload)).push(LinkEvent::Closed) + later)
            == seq![decode(payload)->Ok_0],
{
    let events = byte_events(frame_bytes(payload));
    let closed = events.push(LinkEvent::Closed);
    lemma_frame_delivers(payload);
    assert(closed.drop_last() =~= events);
    lemma_run_concat(initial(), closed, later);
    lemma_stopped_for_good(reader_after(initial(), closed), later);
    assert(delivered(initial(), closed) + Seq::<PacketView>::empty() =~= delivered(
        initial(),
        closed,
    ));
}

} // verus!
