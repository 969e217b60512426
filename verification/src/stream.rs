//! The stream reader: one unidirectional stream, read once and to its end
//! under a fixed bound, becomes at most one packet for the dispatcher.
//!
//! Reading and dispatching wait on the network and on the dispatcher, and
//! belong to the caller. The reader decides what follows each of the two.

use vstd::prelude::*;

use crate::limits::{fits_packet, within_packet_limit, MAX_PACKET_BYTES};
use crate::notice::Severity;

verus! {

/// Why a stream gave no payload.
#[derive(Clone, Copy, Debug, PartialEq, Eq, Structural)]
pub enum StreamReadError {
    /// The stream holds more than the bound allows.
    TooLong,
    /// The peer abandoned the stream, with this application error code.
    Reset { code: u64 },
    /// The connection was lost while the stream was read.
    ConnectionLost,
    /// The stream had been stopped, finished or reset before.
    UnknownStream,
    /// An ordered read was tried after an unordered one.
    IllegalOrderedRead,
    /// The stream was opened in 0-RTT, which the server rejected.
    ZeroRttRejected,
}

/// The payload of one stream with the connection that it came on.
#[derive(Debug, PartialEq, Eq)]
pub struct Packet {
    pub payload: Vec<u8>,
    /// The stable identifier of the connection.
    pub connection: usize,
}

/// A packet as the bytes of its payload and its connection.
pub struct PacketView {
    pub payload: Seq<u8>,
    pub connection: usize,
}

impl View for Packet {
    type V = PacketView;

    open spec fn view(&self) -> PacketView {
        PacketView { payload: self.payload@, connection: self.connection }
    }
}

/// How far a reader has come with its stream.
#[derive(Clone, Copy, Debug, PartialEq, Eq, Structural)]
pub enum ReaderPhase {
    /// The stream is being read.
    Reading,
    /// The payload was handed to the dispatcher, which has not answered yet.
    Dispatching,
    /// Nothing more happens to this stream.
    Done,
}

/// The reader of one stream.
#[derive(Clone, Copy, Debug, PartialEq, Eq, Structural)]
pub struct StreamReader {
    /// The stable identifier of the connection that the stream belongs to.
    pub connection: usize,
    pub phase: ReaderPhase,
}

/// What happened to the stream or its packet.
#[derive(Debug, PartialEq, Eq)]
pub enum ReaderEvent {
    /// The read to the end of the stream came back.
    ReadFinished { outcome: Result<Vec<u8>, StreamReadError> },
    /// The dispatcher came back; `failed` says whether with an error.
    DispatchFinished { failed: bool },
}

/// A reader event with the bytes that were read in place of their buffer.
pub enum ReaderEventView {
    ReadFinished { outcome: Result<Seq<u8>, StreamReadError> },
    DispatchFinished { failed: bool },
}

impl View for ReaderEvent {
    type V = ReaderEventView;

    open spec fn view(&self) -> ReaderEventView {
        match *self {
            ReaderEvent::ReadFinished { outcome: Ok(bytes) } => ReaderEventView::ReadFinished {
                outcome: Ok(bytes@),
            },
            ReaderEvent::ReadFinished { outcome: Err(error) } => ReaderEventView::ReadFinished {
                outcome: Err(error),
            },
            ReaderEvent::DispatchFinished { failed } => ReaderEventView::DispatchFinished {
                failed,
            },
        }
    }
}

/// What the reader's task does next.
#[derive(Debug, PartialEq, Eq)]
pub enum ReaderAction {
    /// Hand the packet to the dispatcher and wait for its answer.
    Dispatch { packet: Packet },
    /// Log the failed read and drop the stream; nothing is dispatched.
    Discard { error: StreamReadError },
    /// End the task: the packet was dispatched.
    Finish,
    /// Log the dispatcher's error and end the task as after a success.
    ReportDispatchFailure,
    /// Nothing: the event does not belong to the reader's phase.
    Idle,
}

/// A reader action with the packet's view in place of the packet.
pub enum ReaderActionView {
    Dispatch { packet: PacketView },
    Discard { error: StreamReadError },
    Finish,
    ReportDispatchFailure,
    Idle,
}

impl View for ReaderAction {
    type V = ReaderActionView;

    open spec fn view(&self) -> ReaderActionView {
        match *self {
            ReaderAction::Dispatch { packet } => ReaderActionView::Dispatch { packet: packet@ },
            ReaderAction::Discard { error } => ReaderActionView::Discard { error },
            ReaderAction::Finish => ReaderActionView::Finish,
            ReaderAction::ReportDispatchFailure => ReaderActionView::ReportDispatchFailure,
            ReaderAction::Idle => ReaderActionView::Idle,
        }
    }
}

impl ReaderActionView {
    /// The severity at which the action is logged, if it is logged.
    pub open spec fn severity(self) -> Option<Severity> {
        match self {
            ReaderActionView::Discard { .. } => Some(Severity::Error),
            ReaderActionView::ReportDispatchFailure => Some(Severity::Error),
            _ => None,
        }
    }
}

impl ReaderAction {
    /// The severity at which the action is logged, if it is logged.
    pub fn severity(&self) -> (severity: Option<Severity>)
        ensures
            severity == self@.severity(),
    {
        match self {
            ReaderAction::Discard { .. } => Some(Severity::Error),
            ReaderAction::ReportDispatchFailure => Some(Severity::Error),
            _ => None,
        }
    }
}

/// What a read that came back with `outcome` is worth: the bytes, where there
/// are any and they fit into a packet; else the reason why not. Bytes beyond
/// the bound count as `TooLong`, as the transport reports them.
pub open spec fn payload_of(outcome: Result<Seq<u8>, StreamReadError>) -> Result<
    Seq<u8>,
    StreamReadError,
> {
    match outcome {
        Ok(bytes) => if fits_packet(bytes.len()) {
            Ok(bytes)
        } else {
            Err(StreamReadError::TooLong)
        },
        Err(error) => Err(error),
    }
}

impl StreamReader {
    /// The reader of a stream that was just opened on `connection`.
    pub open spec fn fresh(connection: usize) -> StreamReader {
        StreamReader { connection, phase: ReaderPhase::Reading }
    }

    /// The reader after `event`.
    pub open spec fn next(self, event: ReaderEventView) -> StreamReader {
        match (self.phase, event) {
            (ReaderPhase::Reading, ReaderEventView::ReadFinished { outcome }) => StreamReader {
                connection: self.connection,
                phase: if payload_of(outcome) is Ok {
                    ReaderPhase::Dispatching
                } else {
                    ReaderPhase::Done
                },
            },
            (ReaderPhase::Dispatching, ReaderEventView::DispatchFinished { .. }) => StreamReader {
                connection: self.connection,
                phase: ReaderPhase::Done,
            },
            _ => self,
        }
    }

    /// The action with which the reader answers `event`.
    pub open spec fn answer(self, event: ReaderEventView) -> ReaderActionView {
        match (self.phase, event) {
            (ReaderPhase::Reading, ReaderEventView::ReadFinished { outcome }) => match payload_of(
                outcome,
            ) {
                Ok(payload) => ReaderActionView::Dispatch {
                    packet: PacketView { payload, connection: self.connection },
                },
                Err(error) => ReaderActionView::Discard { error },
            },
            (ReaderPhase::Dispatching, ReaderEventView::DispatchFinished { failed }) => if failed {
                ReaderActionView::ReportDispatchFailure
            } else {
                ReaderActionView::Finish
            },
            _ => ReaderActionView::Idle,
        }
    }

    /// The reader after all of `events`, in order.
    pub open spec fn after(self, events: Seq<ReaderEventView>) -> StreamReader
        decreases events.len(),
    {
        if events.len() == 0 {
            self
        } else {
            self.after(events.drop_last()).next(events.last())
        }
    }

    /// The action that answers `events[at]` when the reader is handed
    /// `events` in order.
    pub open spec fn answer_at(self, events: Seq<ReaderEventView>, at: int) -> ReaderActionView {
        self.after(events.take(at)).answer(events[at])
    }

    /// Makes the reader of a stream that was just opened on `connection`.
    pub fn new(connection: usize) -> (reader: StreamReader)
        ensures
            reader == StreamReader::fresh(connection),
    {
        StreamReader { connection, phase: ReaderPhase::Reading }
    }

    /// The number of bytes up to which the stream is read; a stream that
    /// holds more fails.
    pub fn read_limit(&self) -> (limit: usize)
        ensures
            limit == MAX_PACKET_BYTES,
            forall|len: nat| fits_packet(len) <==> len <= limit,
    {
        MAX_PACKET_BYTES
    }

    /// One turn of the reader's task: takes what came back and says what to
    /// do.
    ///
    /// While reading, a read that gave at most `MAX_PACKET_BYTES` bytes is
    /// answered by `Dispatch` with exactly those bytes and the reader's
    /// connection; a failed read, or one that gave more, by `Discard`. While
    /// dispatching, the dispatcher's answer ends the task, with a report where
    /// it failed. Any other event is answered by `Idle` and changes nothing.
    pub fn on_event(&mut self, event: ReaderEvent) -> (action: ReaderAction)
        ensures
            *final(self) == old(self).next(event@),
            action@ == old(self).answer(event@),
    {
        match event {
            ReaderEvent::ReadFinished { outcome } => {
                match self.phase {
                    ReaderPhase::Reading => match outcome {
                        Ok(payload) => {
                            if within_packet_limit(payload.len()) {
                                self.phase = ReaderPhase::Dispatching;
                                ReaderAction::Dispatch {
                                    packet: Packet { payload, connection: self.connection },
                                }
                            } else {
                                self.phase = ReaderPhase::Done;
                                ReaderAction::Discard { error: StreamReadError::TooLong }
                            }
                        },
                        Err(error) => {
                            self.phase = ReaderPhase::Done;
                            ReaderAction::Discard { error }
                        },
                    },
                    _ => ReaderAction::Idle,
                }
            },
            ReaderEvent::DispatchFinished { failed } => {
                match self.phase {
                    ReaderPhase::Dispatching => {
                        self.phase = ReaderPhase::Done;
                        if failed {
                            ReaderAction::ReportDispatchFailure
                        } else {
                            ReaderAction::Finish
                        }
                    },
                    _ => ReaderAction::Idle,
                }
            },
        }
    }
}

/// How far a phase is from the start: a phase never gives way to an earlier
/// one.
pub open spec fn phase_rank(phase: ReaderPhase) -> nat {
    match phase {
        ReaderPhase::Reading => 0,
        ReaderPhase::Dispatching => 1,
        ReaderPhase::Done => 2,
    }
}

/// A reader keeps its connection and never falls back into an earlier phase,
/// whatever it is handed.
pub proof fn lemma_reader_moves_forward(reader: StreamReader, events: Seq<ReaderEventView>)
    ensures
        reader.after(events).connection == reader.connection,
        phase_rank(reader.phase) <= phase_rank(reader.after(events).phase),
    decreases events.len(),
{
    if events.len() > 0 {
        lemma_reader_moves_forward(reader, events.drop_last());
    }
}

/// Handing a reader `events` up to `end` is handing it `events` up to `mid`
/// and then the rest up to `end`.
pub proof fn lemma_reader_after_split(
    reader: StreamReader,
    events: Seq<ReaderEventView>,
    mid: int,
    end: int,
)
    requires
        0 <= mid <= end <= events.len(),
    ensures
        reader.after(events.take(end)) == reader.after(events.take(mid)).after(
            events.subrange(mid, end),
        ),
    decreases end - mid,
{
    if mid == end {
        assert(events.subrange(mid, end) =~= Seq::<ReaderEventView>::empty());
    } else {
        lemma_reader_after_split(reader, events, mid, end - 1);
        assert(events.take(end).drop_last() =~= events.take(end - 1));
        assert(events.subrange(mid, end).drop_last() =~= events.subrange(mid, end - 1));
        assert(events.take(end).last() == events.subrange(mid, end).last());
    }
}

/// No payload is dispatched twice. Whatever a reader is handed, and in
/// whatever order, at most one of its answers is `Dispatch`.
pub proof fn lemma_dispatch_at_most_once(
    reader: StreamReader,
    events: Seq<ReaderEventView>,
    first: int,
    second: int,
)
    requires
        0 <= first < second < events.len(),
    ensures
        !(reader.answer_at(events, first) is Dispatch && reader.answer_at(events, second)
            is Dispatch),
{
    if reader.answer_at(events, first) is Dispatch {
        let met = reader.after(events.take(first));
        assert(events.take(first + 1).drop_last() =~= events.take(first));
        assert(events.take(first + 1).last() == events[first]);
        assert(reader.after(events.take(first + 1)) == met.next(events[first]));
        lemma_reader_after_split(reader, events, first + 1, second);
        lemma_reader_moves_forward(
            reader.after(events.take(first + 1)),
            events.subrange(first + 1, second),
        );
    }
}

/// What a reader dispatches is what its stream held, under its own
/// connection. Whatever a fresh reader is handed, an answer `Dispatch`
/// answers a finished read that gave a payload within the bound, and carries
/// that payload unchanged together with the reader's connection.
pub proof fn lemma_dispatch_is_faithful(
    connection: usize,
    events: Seq<ReaderEventView>,
    at: int,
)
    requires
        0 <= at < events.len(),
        StreamReader::fresh(connection).answer_at(events, at) is Dispatch,
    ensures
        events[at] matches ReaderEventView::ReadFinished { outcome: Ok(bytes) } && fits_packet(
            bytes.len(),
        ) && StreamReader::fresh(connection).answer_at(events, at) == (ReaderActionView::Dispatch {
            packet: PacketView { payload: bytes, connection },
        }),
{
    lemma_reader_moves_forward(StreamReader::fresh(connection), events.take(at));
}

/// A reader that is done stays done and answers everything with `Idle`.
pub proof fn lemma_done_for_good(connection: usize, events: Seq<ReaderEventView>)
    ensures
        (StreamReader { connection, phase: ReaderPhase::Done }).after(events) == (StreamReader {
            connection,
            phase: ReaderPhase::Done,
        }),
        forall|i: int|
            0 <= i < events.len() ==> #[trigger] (StreamReader {
                connection,
                phase: ReaderPhase::Done,
            }).answer_at(events, i) == ReaderActionView::Idle,
    decreases events.len(),
{
    let done = StreamReader { connection, phase: ReaderPhase::Done };
    if events.len() > 0 {
        lemma_done_for_good(connection, events.drop_last());
    }
    assert forall|i: int| 0 <= i < events.len() implies #[trigger] done.answer_at(events, i)
        == ReaderActionView::Idle by {
        lemma_done_for_good(connection, events.take(i));
    }
}

/// A failed read dispatches nothing. A fresh reader whose read failed, or
/// gave more than the bound allows, answers with `Discard` of the reason,
/// which is logged as an error; after that it is done, and whatever it is
/// handed, it answers with `Idle`.
pub proof fn lemma_failed_read_dispatches_nothing(
    connection: usize,
    outcome: Result<Seq<u8>, StreamReadError>,
    later: Seq<ReaderEventView>,
    at: int,
)
    requires
        payload_of(outcome) is Err,
        0 <= at < later.len(),
    ensures
        StreamReader::fresh(connection).answer(ReaderEventView::ReadFinished { outcome })
            == (ReaderActionView::Discard { error: payload_of(outcome)->Err_0 }),
        StreamReader::fresh(connection).answer(
            ReaderEventView::ReadFinished { outcome },
        ).severity() == Some(Severity::Error),
        StreamReader::fresh(connection).next(
            ReaderEventView::ReadFinished { outcome },
        ).answer_at(later, at) == ReaderActionView::Idle,
{
    lemma_done_for_good(connection, later);
}

} // verus!
