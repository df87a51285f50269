//! The listener's life cycle: it binds once, then accepts and handles
//! connections in strict alternation, one connection at a time.
use vstd::prelude::*;
use vstd::string::StringExecFns;

use crate::text::{append_decimal, decimal};

verus! {

/// The address that the listener binds.
pub const IP: &'static str = "127.0.0.1";

/// The port that the listener binds.
pub const PORT: u16 = 7878;

/// Where the listener stands.
#[derive(Clone, Copy, Debug, PartialEq, Eq, Structural)]
pub enum ListenerState {
    /// Not bound yet.
    Unbound,
    /// Bound, and waiting for the next connection.
    Accepting,
    /// Serving the one connection that it accepted last.
    Handling,
}

/// What happens to the listener.
#[derive(Clone, Copy, Debug, PartialEq, Eq, Structural)]
pub enum ListenerEvent {
    /// The address was bound.
    Bound,
    /// A connection was accepted.
    Accepted,
    /// The connection in hand was answered and closed.
    Finished,
}

/// The transition table; `None` where an event cannot happen in a state.
pub open spec fn step(state: ListenerState, event: ListenerEvent) -> Option<ListenerState> {
    match (state, event) {
        (ListenerState::Unbound, ListenerEvent::Bound) => Some(ListenerState::Accepting),
        (ListenerState::Accepting, ListenerEvent::Accepted) => Some(ListenerState::Handling),
        (ListenerState::Handling, ListenerEvent::Finished) => Some(ListenerState::Accepting),
        _ => None,
    }
}

/// The state after a sequence of events from the start, or `None` where the
/// sequence is not one that the listener allows.
pub open spec fn run(events: Seq<ListenerEvent>) -> Option<ListenerState>
    decreases events.len(),
{
    if events.len() == 0 {
        Some(ListenerState::Unbound)
    } else {
        match run(events.drop_last()) {
            Some(s) => step(s, events.last()),
            None => None,
        }
    }
}

/// How many times `event` occurs in `events`.
pub open spec fn count(events: Seq<ListenerEvent>, event: ListenerEvent) -> nat
    decreases events.len(),
{
    if events.len() == 0 {
        0
    } else {
        count(events.drop_last(), event) + if events.last() == event {
            1nat
        } else {
            0nat
        }
    }
}

/// The number of connections in hand in a state.
pub open spec fn in_flight(state: ListenerState) -> nat {
    if state == ListenerState::Handling {
        1
    } else {
        0
    }
}

/// The next state of the listener after an event, or `None` where the event
/// cannot happen in that state.
pub fn next_state(state: ListenerState, event: ListenerEvent) -> (r: Option<ListenerState>)
    ensures
        r == step(state, event),
{
    match (state, event) {
        (ListenerState::Unbound, ListenerEvent::Bound) => Some(ListenerState::Accepting),
        (ListenerState::Accepting, ListenerEvent::Accepted) => Some(ListenerState::Handling),
        (ListenerState::Handling, ListenerEvent::Finished) => Some(ListenerState::Accepting),
        _ => None,
    }
}

/// The address to bind, as `ip:port`.
pub fn server_address() -> (r: String)
    ensures
        r@ == IP@ + ":"@ + decimal(PORT as nat),
{
    let mut out = String::from_str(IP);
    out.append(":");
    append_decimal(&mut out, PORT as usize);
    out
}

proof fn lemma_run_prefix(events: Seq<ListenerEvent>, k: int)
    requires
        run(events) is Some,
        0 <= k <= events.len(),
    ensures
        run(events.take(k)) is Some,
    decreases events.len(),
{
    if k < events.len() {
        assert(events.drop_last().take(k) =~= events.take(k));
        lemma_run_prefix(events.drop_last(), k);
    } else {
        assert(events.take(k) =~= events);
    }
}

proof fn lemma_count_balance(events: Seq<ListenerEvent>)
    requires
        run(events) is Some,
    ensures
        count(events, ListenerEvent::Accepted) == count(events, ListenerEvent::Finished)
            + in_flight(run(events)->Some_0),
    decreases events.len(),
{
    if events.len() > 0 {
        lemma_count_balance(events.drop_last());
    }
}

/// Connections are served one at a time: in every sequence of events that
/// the listener allows, each connection is accepted only once every
/// connection accepted before it has finished, and at most one is in hand.
pub proof fn lemma_one_connection_at_a_time(events: Seq<ListenerEvent>)
    requires
        run(events) is Some,
    ensures
        forall|i: int|
            0 <= i < events.len() && #[trigger] events[i] == ListenerEvent::Accepted ==> count(
                events.take(i),
                ListenerEvent::Accepted,
            ) == count(events.take(i), ListenerEvent::Finished),
        count(events, ListenerEvent::Accepted) <= count(events, ListenerEvent::Finished) + 1,
{
    lemma_count_balance(events);
    assert forall|i: int|
        0 <= i < events.len() && #[trigger] events[i] == ListenerEvent::Accepted implies count(
            events.take(i),
            ListenerEvent::Accepted,
        ) == count(events.take(i), ListenerEvent::Finished) by {
        lemma_run_prefix(events, i + 1);
        let prefix = events.take(i + 1);
        assert(prefix.drop_last() =~= events.take(i));
        assert(prefix.last() == events[i]);
        lemma_count_balance(events.take(i));
    }
}

} // verus!
