use vstd::prelude::*;

verus! {

/// The lifecycle of one connection.
#[derive(Debug, PartialEq, Eq, Structural, Clone, Copy)]
pub enum SessionState {
    Connecting,
    Open,
    Closing,
    Closed,
}

/// What happens to a connection's transport.
#[derive(Debug, PartialEq, Eq, Structural, Clone, Copy)]
pub enum SessionEvent {
    /// The transport upgrade succeeded.
    Upgraded,
    /// The client closed the stream, or the transport failed.
    Terminated,
    /// The connection's subscriptions have been released.
    CleanedUp,
}

/// The state after an event; events that do not apply leave the state as it is.
pub open spec fn spec_next_state(s: SessionState, ev: SessionEvent) -> SessionState {
    match (s, ev) {
        (SessionState::Connecting, SessionEvent::Upgraded) => SessionState::Open,
        (SessionState::Connecting, SessionEvent::Terminated) => SessionState::Closed,
        (SessionState::Open, SessionEvent::Terminated) => SessionState::Closing,
        (SessionState::Closing, SessionEvent::CleanedUp) => SessionState::Closed,
        _ => s,
    }
}

/// The state after an event.
pub fn next_state(s: SessionState, ev: SessionEvent) -> (r: SessionState)
    ensures
        r == spec_next_state(s, ev),
{
    match (s, ev) {
        (SessionState::Connecting, SessionEvent::Upgraded) => SessionState::Open,
        (SessionState::Connecting, SessionEvent::Terminated) => SessionState::Closed,
        (SessionState::Open, SessionEvent::Terminated) => SessionState::Closing,
        (SessionState::Closing, SessionEvent::CleanedUp) => SessionState::Closed,
        _ => s,
    }
}

/// Only an open session has its messages processed.
pub fn accepts_messages(s: SessionState) -> (r: bool)
    ensures
        r == (s == SessionState::Open),
{
    match s {
        SessionState::Open => true,
        _ => false,
    }
}

/// Closed is terminal: no event leads out of it.
pub proof fn lemma_closed_is_terminal(ev: SessionEvent)
    ensures
        spec_next_state(SessionState::Closed, ev) == SessionState::Closed,
{
}

} // verus!
