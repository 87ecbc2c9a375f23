//! The acceptor's decisions: one connection is handled at a time, and no
//! failure of a connection ends the loop.
//!
//! The caller owns the listener and the handler. It reports what happened as
//! an [`Event`], and does what the returned [`Action`] says.

use vstd::prelude::*;
use vstd::string::*;

verus! {

/// What the acceptor is doing between two events.
#[derive(Clone, Copy, Debug, PartialEq, Eq, Structural)]
pub enum Phase {
    /// No connection is being handled; the next one is awaited.
    Listening,
    /// The handler is running on a connection.
    Handling,
}

/// What the caller observed.
#[derive(Debug)]
pub enum Event {
    /// A connection arrived, from `peer` where its address is known.
    Accepted { peer: Option<String> },
    /// Accepting a connection failed.
    AcceptFailed,
    /// The handler returned without error.
    Handled,
    /// The handler returned an error, which reads `reason`.
    HandlerFailed { reason: String },
}

/// What the caller does next.
#[derive(Debug)]
pub enum Action {
    /// Await the next connection.
    Accept,
    /// Log `note` at debug level, then run the handler on the connection
    /// that arrived.
    Handle { note: String },
    /// Log `message` at error level, then await the next connection.
    Report { message: String },
    /// The event does not belong to the phase: nothing to do.
    Ignore,
}

/// An event, with its texts as sequences of characters.
pub enum EventView {
    Accepted { peer: Option<Seq<char>> },
    AcceptFailed,
    Handled,
    HandlerFailed { reason: Seq<char> },
}

/// An action, with its texts as sequences of characters.
pub enum ActionView {
    Accept,
    Handle { note: Seq<char> },
    Report { message: Seq<char> },
    Ignore,
}

impl View for Event {
    type V = EventView;

    open spec fn view(&self) -> EventView {
        match *self {
            Event::Accepted { peer } => EventView::Accepted {
                peer: match peer {
                    Some(p) => Some(p@),
                    None => None,
                },
            },
            Event::AcceptFailed => EventView::AcceptFailed,
            Event::Handled => EventView::Handled,
            Event::HandlerFailed { reason } => EventView::HandlerFailed { reason: reason@ },
        }
    }
}

impl View for Action {
    type V = ActionView;

    open spec fn view(&self) -> ActionView {
        match *self {
            Action::Accept => ActionView::Accept,
            Action::Handle { note } => ActionView::Handle { note: note@ },
            Action::Report { message } => ActionView::Report { message: message@ },
            Action::Ignore => ActionView::Ignore,
        }
    }
}

/// The debug line for a connection that arrived.
pub open spec fn arrival_note(peer: Option<Seq<char>>) -> Seq<char> {
    "received TCP connection from "@ + match peer {
        Some(p) => p,
        None => "unknown address"@,
    }
}

/// The error line for a connection that failed for `reason`.
pub open spec fn failure_report(reason: Seq<char>) -> Seq<char> {
    "failed to handle request: "@ + reason
}

/// Whether `event` says that the handler has returned.
pub open spec fn is_completion(event: EventView) -> bool {
    event is Handled || event is HandlerFailed
}

/// The phase after `event` arrived in `phase`.
pub open spec fn next_phase(phase: Phase, event: EventView) -> Phase {
    match (phase, event) {
        (Phase::Listening, EventView::Accepted { .. }) => Phase::Handling,
        (Phase::Handling, EventView::Handled) => Phase::Listening,
        (Phase::Handling, EventView::HandlerFailed { .. }) => Phase::Listening,
        _ => phase,
    }
}

/// What is to be done when `event` arrives in `phase`.
pub open spec fn reaction(phase: Phase, event: EventView) -> ActionView {
    match (phase, event) {
        (Phase::Listening, EventView::Accepted { peer }) => ActionView::Handle {
            note: arrival_note(peer),
        },
        (Phase::Listening, EventView::AcceptFailed) => ActionView::Report {
            message: failure_report("failed to initialize connection"@),
        },
        (Phase::Handling, EventView::Handled) => ActionView::Accept,
        (Phase::Handling, EventView::HandlerFailed { reason }) => ActionView::Report {
            message: failure_report(reason),
        },
        _ => ActionView::Ignore,
    }
}

/// The name under which the acceptor's lines are logged.
pub fn log_target() -> (target: &'static str)
    ensures
        target@ == "main"@,
{
    "main"
}

/// The phase in which the acceptor starts.
pub fn initial_phase() -> (phase: Phase)
    ensures
        phase == Phase::Listening,
{
    Phase::Listening
}

/// Decides on `event`: the next phase, and what the caller does.
pub fn step(phase: Phase, event: Event) -> (next: (Phase, Action))
    ensures
        next.0 == next_phase(phase, event@),
        next.1@ == reaction(phase, event@),
{
    match phase {
        Phase::Listening => match event {
            Event::Accepted { peer } => {
                let note: String = String::from_str("received TCP connection from ");
                let note: String = match peer {
                    Some(p) => note.concat(p.as_str()),
                    None => note.concat("unknown address"),
                };
                (Phase::Handling, Action::Handle { note })
            },
            Event::AcceptFailed => {
                let message: String = String::from_str("failed to handle request: ").concat(
                    "failed to initialize connection",
                );
                (Phase::Listening, Action::Report { message })
            },
            _ => (Phase::Listening, Action::Ignore),
        },
        Phase::Handling => match event {
            Event::Handled => (Phase::Listening, Action::Accept),
            Event::HandlerFailed { reason } => {
                let message: String = String::from_str("failed to handle request: ").concat(
                    reason.as_str(),
                );
                (Phase::Listening, Action::Report { message })
            },
            _ => (Phase::Handling, Action::Ignore),
        },
    }
}

/// The phase reached from `start` once all of `events` have arrived in order.
pub open spec fn phase_after(start: Phase, events: Seq<EventView>) -> Phase
    decreases events.len(),
{
    if events.len() == 0 {
        start
    } else {
        next_phase(phase_after(start, events.drop_last()), events.last())
    }
}

/// What is to be done on the event at index `i` of `events`, the acceptor
/// having started in `start`.
pub open spec fn reaction_at(start: Phase, events: Seq<EventView>, i: int) -> ActionView {
    reaction(phase_after(start, events.take(i)), events[i])
}

/// While the handler runs, no event but its return starts it again: the
/// phase stays `Handling` over events that are no completion.
pub proof fn lemma_handler_runs_until_completion(
    start: Phase,
    events: Seq<EventView>,
    i: int,
    k: int,
)
    requires
        0 <= i <= k <= events.len(),
        phase_after(start, events.take(i)) == Phase::Handling,
        forall|m: int| i <= m < k ==> !is_completion(#[trigger] events[m]),
    ensures
        phase_after(start, events.take(k)) == Phase::Handling,
    decreases k - i,
{
    if i < k {
        lemma_handler_runs_until_completion(start, events, i, k - 1);
        assert(events.take(k).drop_last() == events.take(k - 1));
        assert(events.take(k).last() == events[k - 1]);
    }
}

/// Connections are handled strictly one after another: between two events
/// that each start the handler, the handler has returned.
pub proof fn lemma_handled_one_at_a_time(start: Phase, events: Seq<EventView>, i: int, j: int)
    requires
        0 <= i < j < events.len(),
        reaction_at(start, events, i) is Handle,
        reaction_at(start, events, j) is Handle,
    ensures
        exists|k: int| i < k < j && is_completion(#[trigger] events[k]),
{
    if forall|m: int| i < m < j ==> !is_completion(#[trigger] events[m]) {
        assert(events.take(i + 1).drop_last() == events.take(i));
        assert(events.take(i + 1).last() == events[i]);
        assert(phase_after(start, events.take(i + 1)) == Phase::Handling);
        lemma_handler_runs_until_completion(start, events, i + 1, j);
        assert(false);
    }
}

/// A handler's failure is reported and nothing more: the acceptor listens
/// again, and the next connection that arrives is handled.
pub proof fn lemma_failure_is_contained(reason: Seq<char>, peer: Option<Seq<char>>)
    ensures
        reaction(Phase::Handling, EventView::HandlerFailed { reason }) == (ActionView::Report {
            message: failure_report(reason),
        }),
        next_phase(Phase::Handling, EventView::HandlerFailed { reason }) == Phase::Listening,
        reaction(
            next_phase(Phase::Handling, EventView::HandlerFailed { reason }),
            EventView::Accepted { peer },
        ) == (ActionView::Handle { note: arrival_note(peer) }),
{
}

/// Every event leaves the acceptor in a phase from which a connection is
/// handled again: at once where it listens, and after the handler's return
/// where it handles.
pub proof fn lemma_acceptor_never_stops(phase: Phase, event: EventView, peer: Option<Seq<char>>)
    ensures
        ({
            let now = next_phase(phase, event);
            let rested = if now == Phase::Handling {
                next_phase(now, EventView::Handled)
            } else {
                now
            };
            reaction(rested, EventView::Accepted { peer }) is Handle
        }),
{
}

} // verus!
