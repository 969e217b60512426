//! The connection acceptor: what the accept loop decides on each thing that
//! the listener reports.
//!
//! The loop itself waits on the network and belongs to the caller. Each time
//! the listener yields, the caller hands the event to `handle_incoming` and
//! carries out the action that comes back.

use vstd::prelude::*;

use crate::notice::Severity;

verus! {

/// The accept loop, which listens until the listener is exhausted.
#[derive(Clone, Copy, Debug, PartialEq, Eq, Structural)]
pub enum Acceptor {
    /// Connection attempts are still taken.
    Listening,
    /// The listener's sequence of attempts has ended.
    Stopped,
}

/// What the listener reported.
#[derive(Clone, Copy, Debug, PartialEq, Eq, Structural)]
pub enum AcceptEvent {
    /// An attempt completed its handshake; `connection` is the stable
    /// identifier of the new connection.
    Established { connection: usize },
    /// An attempt did not complete its handshake.
    HandshakeFailed,
    /// The sequence of attempts is exhausted: the endpoint was closed.
    Exhausted,
}

/// What the accept loop does next.
#[derive(Clone, Copy, Debug, PartialEq, Eq, Structural)]
pub enum AcceptAction {
    /// Log the acceptance, start a handler task for the connection without
    /// waiting for it, and take the next attempt.
    Serve { connection: usize },
    /// Log the failed handshake and take the next attempt.
    Skip,
    /// Log that listening has stopped and return normally.
    Stop,
    /// Nothing: the loop had stopped before.
    Idle,
}

impl Acceptor {
    /// The acceptor of a freshly bound listener.
    pub fn new() -> (acceptor: Acceptor)
        ensures
            acceptor == Acceptor::Listening,
    {
        Acceptor::Listening
    }

    /// The acceptor after `event`.
    pub open spec fn next(self, event: AcceptEvent) -> Acceptor {
        match (self, event) {
            (Acceptor::Listening, AcceptEvent::Exhausted) => Acceptor::Stopped,
            (Acceptor::Listening, _) => Acceptor::Listening,
            (Acceptor::Stopped, _) => Acceptor::Stopped,
        }
    }

    /// The action with which the acceptor answers `event`.
    pub open spec fn answer(self, event: AcceptEvent) -> AcceptAction {
        match (self, event) {
            (Acceptor::Listening, AcceptEvent::Established { connection }) => AcceptAction::Serve {
                connection,
            },
            (Acceptor::Listening, AcceptEvent::HandshakeFailed) => AcceptAction::Skip,
            (Acceptor::Listening, AcceptEvent::Exhausted) => AcceptAction::Stop,
            (Acceptor::Stopped, _) => AcceptAction::Idle,
        }
    }

    /// The acceptor after all of `events`, in order.
    pub open spec fn after(self, events: Seq<AcceptEvent>) -> Acceptor
        decreases events.len(),
    {
        if events.len() == 0 {
            self
        } else {
            self.after(events.drop_last()).next(events.last())
        }
    }

    /// The action that answers `events[at]` when the acceptor is handed
    /// `events` in order.
    pub open spec fn answer_at(self, events: Seq<AcceptEvent>, at: int) -> AcceptAction {
        self.after(events.take(at)).answer(events[at])
    }
}

impl AcceptAction {
    /// The severity at which the action is logged, if it is logged.
    pub open spec fn spec_severity(self) -> Option<Severity> {
        match self {
            AcceptAction::Serve { .. } => Some(Severity::Info),
            AcceptAction::Skip => Some(Severity::Error),
            AcceptAction::Stop => Some(Severity::Info),
            AcceptAction::Idle => None,
        }
    }

    /// The severity at which the action is logged, if it is logged.
    pub fn severity(&self) -> (severity: Option<Severity>)
        ensures
            severity == self.spec_severity(),
    {
        match self {
            AcceptAction::Serve { .. } => Some(Severity::Info),
            AcceptAction::Skip => Some(Severity::Error),
            AcceptAction::Stop => Some(Severity::Info),
            AcceptAction::Idle => None,
        }
    }
}

/// One turn of the accept loop: takes what the listener reported and says
/// what to do.
///
/// While listening, an established connection is served, a failed handshake
/// is skipped, and exhaustion stops the loop. Only exhaustion changes the
/// acceptor. A stopped acceptor answers everything with `Idle`.
pub fn handle_incoming(acceptor: &mut Acceptor, event: AcceptEvent) -> (action: AcceptAction)
    ensures
        *final(acceptor) == old(acceptor).next(event),
        action == old(acceptor).answer(event),
{
    match *acceptor {
        Acceptor::Listening => match event {
            AcceptEvent::Established { connection } => AcceptAction::Serve { connection },
            AcceptEvent::HandshakeFailed => AcceptAction::Skip,
            AcceptEvent::Exhausted => {
                *acceptor = Acceptor::Stopped;
                AcceptAction::Stop
            },
        },
        Acceptor::Stopped => AcceptAction::Idle,
    }
}

/// Whether `events` holds no exhaustion.
pub open spec fn all_attempts(events: Seq<AcceptEvent>) -> bool {
    forall|i: int| 0 <= i < events.len() ==> events[i] != AcceptEvent::Exhausted
}

/// A listening acceptor is still listening after a sequence of events exactly
/// when none of them was the listener's exhaustion: no handshake, failed or
/// not, halts the loop.
pub proof fn lemma_listening_until_exhausted(events: Seq<AcceptEvent>)
    ensures
        Acceptor::Listening.after(events) == Acceptor::Listening <==> all_attempts(events),
        Acceptor::Listening.after(events) == Acceptor::Stopped <==> !all_attempts(events),
    decreases events.len(),
{
    if events.len() > 0 {
        let front = events.drop_last();
        lemma_listening_until_exhausted(front);
        if all_attempts(events) {
            assert forall|i: int| 0 <= i < front.len() implies front[i]
                != AcceptEvent::Exhausted by {
                assert(front[i] == events[i]);
            }
            assert(events.last() == events[events.len() - 1]);
        } else {
            let i = choose|i: int| 0 <= i < events.len() && events[i] == AcceptEvent::Exhausted;
            if i < front.len() {
                assert(front[i] == events[i]);
            }
        }
    }
}

/// Failures never halt the loop. Whatever mix of completed and failed
/// handshakes a listening acceptor is handed, each completed one is answered
/// by `Serve` with its own connection, each failed one by `Skip`, and the
/// acceptor is listening afterwards, so that a further attempt is answered in
/// the same way.
pub proof fn lemma_failures_never_halt(events: Seq<AcceptEvent>, further: AcceptEvent)
    requires
        all_attempts(events),
    ensures
        Acceptor::Listening.after(events) == Acceptor::Listening,
        forall|i: int|
            0 <= i < events.len() ==> #[trigger] Acceptor::Listening.answer_at(events, i)
                == Acceptor::Listening.answer(events[i]),
        Acceptor::Listening.after(events).answer(further) == Acceptor::Listening.answer(further),
{
    lemma_listening_until_exhausted(events);
    assert forall|i: int| 0 <= i < events.len() implies #[trigger] Acceptor::Listening.answer_at(
        events,
        i,
    ) == Acceptor::Listening.answer(events[i]) by {
        let before = events.take(i);
        assert forall|j: int| 0 <= j < before.len() implies before[j]
            != AcceptEvent::Exhausted by {
            assert(before[j] == events[j]);
        }
        lemma_listening_until_exhausted(before);
    }
}

/// Every accepted connection gets exactly one handler. In any sequence of
/// events the answer to an event is `Serve` for a connection exactly when
/// that event is the completed handshake of that connection and the listener
/// was not exhausted before it.
pub proof fn lemma_one_handler_per_connection(events: Seq<AcceptEvent>, at: int, connection: usize)
    requires
        0 <= at < events.len(),
    ensures
        Acceptor::Listening.answer_at(events, at) == (AcceptAction::Serve { connection }) <==> (
        events[at] == (AcceptEvent::Established { connection }) && all_attempts(events.take(at))),
{
    lemma_listening_until_exhausted(events.take(at));
}

/// A stopped acceptor stays stopped and does nothing more.
pub proof fn lemma_stopped_for_good(events: Seq<AcceptEvent>)
    ensures
        Acceptor::Stopped.after(events) == Acceptor::Stopped,
        forall|i: int|
            0 <= i < events.len() ==> #[trigger] Acceptor::Stopped.answer_at(events, i)
                == AcceptAction::Idle,
    decreases events.len(),
{
    if events.len() > 0 {
        lemma_stopped_for_good(events.drop_last());
    }
    assert forall|i: int| 0 <= i < events.len() implies #[trigger] Acceptor::Stopped.answer_at(
        events,
        i,
    ) == AcceptAction::Idle by {
        lemma_stopped_for_good(events.take(i));
    }
}

} // verus!
