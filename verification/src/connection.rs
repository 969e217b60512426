//! The connection handler: what the stream-acceptance loop of one connection
//! decides on each thing that the connection reports.
//!
//! The loop itself waits on the connection and belongs to the caller. The
//! handler never closes the connection: the peer or the transport does.

use vstd::prelude::*;

use crate::limits::fits_packet;
use crate::notice::Severity;
use crate::stream::{PacketView, ReaderActionView, ReaderEventView, ReaderPhase, StreamReader};

verus! {

/// The handler of one accepted connection.
#[derive(Clone, Copy, Debug, PartialEq, Eq, Structural)]
pub struct ConnectionHandler {
    /// The stable identifier of the connection.
    pub connection: usize,
    /// Whether streams are still taken.
    pub open: bool,
}

/// What the connection reported.
#[derive(Clone, Copy, Debug, PartialEq, Eq, Structural)]
pub enum StreamEvent {
    /// The peer opened a unidirectional stream.
    Opened,
    /// Taking the next stream failed.
    Failed,
    /// There are no more streams: the connection was closed.
    Finished,
}

/// What the handler's task does next.
#[derive(Clone, Copy, Debug, PartialEq, Eq, Structural)]
pub enum HandlerAction {
    /// Start a task that reads the stream with `reader` and a handle of its
    /// own to the connection, without waiting for it, and take the next
    /// stream.
    Read { reader: StreamReader },
    /// Log that the connection has closed and end the task.
    Close,
    /// Nothing: the handler had closed before.
    Idle,
}

impl HandlerAction {
    /// The severity at which the action is logged, if it is logged.
    pub open spec fn spec_severity(self) -> Option<Severity> {
        match self {
            HandlerAction::Close => Some(Severity::Info),
            _ => None,
        }
    }

    /// The severity at which the action is logged, if it is logged.
    pub fn severity(&self) -> (severity: Option<Severity>)
        ensures
            severity == self.spec_severity(),
    {
        match self {
            HandlerAction::Close => Some(Severity::Info),
            _ => None,
        }
    }
}

impl ConnectionHandler {
    /// The handler of a connection that was just accepted.
    pub open spec fn fresh(connection: usize) -> ConnectionHandler {
        ConnectionHandler { connection, open: true }
    }

    /// The handler after `event`.
    pub open spec fn next(self, event: StreamEvent) -> ConnectionHandler {
        ConnectionHandler {
            connection: self.connection,
            open: self.open && event == StreamEvent::Opened,
        }
    }

    /// The action with which the handler answers `event`.
    pub open spec fn answer(self, event: StreamEvent) -> HandlerAction {
        if !self.open {
            HandlerAction::Idle
        } else if event == StreamEvent::Opened {
            HandlerAction::Read { reader: StreamReader::fresh(self.connection) }
        } else {
            HandlerAction::Close
        }
    }

    /// The handler after all of `events`, in order.
    pub open spec fn after(self, events: Seq<StreamEvent>) -> ConnectionHandler
        decreases events.len(),
    {
        if events.len() == 0 {
            self
        } else {
            self.after(events.drop_last()).next(events.last())
        }
    }

    /// The action that answers `events[at]` when the handler is handed
    /// `events` in order.
    pub open spec fn answer_at(self, events: Seq<StreamEvent>, at: int) -> HandlerAction {
        self.after(events.take(at)).answer(events[at])
    }

    /// Makes the handler of a connection that was just accepted.
    pub fn new(connection: usize) -> (handler: ConnectionHandler)
        ensures
            handler == ConnectionHandler::fresh(connection),
    {
        ConnectionHandler { connection, open: true }
    }

    /// One turn of the stream-acceptance loop: takes what the connection
    /// reported and says what to do.
    ///
    /// While open, each opened stream is answered by `Read` with a reader of
    /// its own for this connection; a failure, or the end of the streams,
    /// closes the handler. A closed handler answers everything with `Idle`.
    pub fn on_event(&mut self, event: StreamEvent) -> (action: HandlerAction)
        ensures
            *final(self) == old(self).next(event),
            action == old(self).answer(event),
    {
        if !self.open {
            return HandlerAction::Idle;
        }
        match event {
            StreamEvent::Opened => HandlerAction::Read {
                reader: StreamReader::new(self.connection),
            },
            _ => {
                self.open = false;
                HandlerAction::Close
            },
        }
    }
}

/// Whether every event of `events` is an opened stream.
pub open spec fn all_opened(events: Seq<StreamEvent>) -> bool {
    forall|i: int| 0 <= i < events.len() ==> events[i] == StreamEvent::Opened
}

/// A handler keeps its connection, and a fresh one is open after a sequence
/// of events exactly when each of them was an opened stream.
pub proof fn lemma_open_while_streams_open(connection: usize, events: Seq<StreamEvent>)
    ensures
        ConnectionHandler::fresh(connection).after(events).connection == connection,
        ConnectionHandler::fresh(connection).after(events).open <==> all_opened(events),
    decreases events.len(),
{
    if events.len() > 0 {
        let front = events.drop_last();
        lemma_open_while_streams_open(connection, front);
        if all_opened(events) {
            assert forall|i: int| 0 <= i < front.len() implies front[i] == StreamEvent::Opened by {
                assert(front[i] == events[i]);
            }
            assert(events.last() == events[events.len() - 1]);
        } else {
            let i = choose|i: int| 0 <= i < events.len() && events[i] != StreamEvent::Opened;
            if i < front.len() {
                assert(front[i] == events[i]);
            }
        }
    }
}

/// Every observed stream gets exactly one reader. In any sequence of events
/// the answer to an event is `Read` exactly when that event is an opened
/// stream and the handler had not closed before it; the reader is then a
/// fresh one for the handler's connection.
pub proof fn lemma_one_reader_per_stream(
    connection: usize,
    events: Seq<StreamEvent>,
    at: int,
    reader: StreamReader,
)
    requires
        0 <= at < events.len(),
    ensures
        ConnectionHandler::fresh(connection).answer_at(events, at) == (HandlerAction::Read {
            reader,
        }) <==> (events[at] == StreamEvent::Opened && all_opened(events.take(at)) && reader
            == StreamReader::fresh(connection)),
{
    lemma_open_while_streams_open(connection, events.take(at));
}

/// A closed handler stays closed and does nothing more.
pub proof fn lemma_closed_for_good(connection: usize, events: Seq<StreamEvent>)
    ensures
        (ConnectionHandler { connection, open: false }).after(events) == (ConnectionHandler {
            connection,
            open: false,
        }),
        forall|i: int|
            0 <= i < events.len() ==> #[trigger] (ConnectionHandler {
                connection,
                open: false,
            }).answer_at(events, i) == HandlerAction::Idle,
    decreases events.len(),
{
    let closed = ConnectionHandler { connection, open: false };
    if events.len() > 0 {
        lemma_closed_for_good(connection, events.drop_last());
    }
    assert forall|i: int| 0 <= i < events.len() implies #[trigger] closed.answer_at(events, i)
        == HandlerAction::Idle by {
        lemma_closed_for_good(connection, events.take(i));
    }
}

/// The events of a connection on which the peer opens `count` streams and
/// nothing else happens yet.
pub open spec fn streams_opened(count: nat) -> Seq<StreamEvent> {
    Seq::new(count, |i: int| StreamEvent::Opened)
}

/// Every payload within the bound reaches the dispatcher once, under its
/// connection. On a connection whose peer opens one stream for each of
/// `payloads`, none of them over the bound:
/// the handler answers each opened stream with a fresh reader for the
/// connection and is open afterwards; the reader of a stream answers the end
/// of its read with `Dispatch` of exactly that stream's payload and the
/// connection's identifier; and whatever that reader is handed afterwards, it
/// answers none of it with a second `Dispatch`.
pub proof fn lemma_each_payload_dispatched_once(
    connection: usize,
    payloads: Seq<Seq<u8>>,
    stream: int,
    later: Seq<ReaderEventView>,
    at: int,
)
    requires
        forall|i: int| 0 <= i < payloads.len() ==> fits_packet(#[trigger] payloads[i].len()),
        0 <= stream < payloads.len(),
        0 <= at < later.len(),
    ensures
        ConnectionHandler::fresh(connection).after(streams_opened(payloads.len())).open,
        ConnectionHandler::fresh(connection).answer_at(streams_opened(payloads.len()), stream)
            == (HandlerAction::Read { reader: StreamReader::fresh(connection) }),
        StreamReader::fresh(connection).answer(
            ReaderEventView::ReadFinished { outcome: Ok(payloads[stream]) },
        ) == (ReaderActionView::Dispatch {
            packet: PacketView { payload: payloads[stream], connection },
        }),
        !(StreamReader::fresh(connection).next(
            ReaderEventView::ReadFinished { outcome: Ok(payloads[stream]) },
        ).answer_at(later, at) is Dispatch),
{
    let opened = streams_opened(payloads.len());
    lemma_open_while_streams_open(connection, opened);
    lemma_one_reader_per_stream(connection, opened, stream, StreamReader::fresh(connection));
    assert forall|i: int| 0 <= i < opened.take(stream).len() implies opened.take(stream)[i]
        == StreamEvent::Opened by {}
    let reader = StreamReader::fresh(connection).next(
        ReaderEventView::ReadFinished { outcome: Ok(payloads[stream]) },
    );
    assert(reader.phase == ReaderPhase::Dispatching);
    crate::stream::lemma_reader_moves_forward(reader, later.take(at));
}

} // verus!
