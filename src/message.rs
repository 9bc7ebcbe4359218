use vstd::prelude::*;
use crate::event::Event;
use crate::filter::Filter;

verus! {

/// A protocol capability that the relay recognises but does not offer.
#[derive(Debug, PartialEq, Eq, Structural, Clone, Copy)]
pub enum Capability {
    Count,
    Auth,
    NegentropyOpen,
    NegentropyMessage,
    NegentropyClose,
}

impl Capability {
    /// The notice that answers a request for this capability.
    pub open spec fn spec_notice(self) -> Seq<char> {
        match self {
            Capability::Count => "unsupported: COUNT"@,
            Capability::Auth => "unsupported: AUTH"@,
            Capability::NegentropyOpen => "unsupported: NEG-OPEN"@,
            Capability::NegentropyMessage => "unsupported: NEG-MSG"@,
            Capability::NegentropyClose => "unsupported: NEG-CLOSE"@,
        }
    }

    /// The notice that answers a request for this capability.
    pub fn notice(&self) -> (r: String)
        ensures
            r@ == self.spec_notice(),
    {
        match self {
            Capability::Count => "unsupported: COUNT".to_owned(),
            Capability::Auth => "unsupported: AUTH".to_owned(),
            Capability::NegentropyOpen => "unsupported: NEG-OPEN".to_owned(),
            Capability::NegentropyMessage => "unsupported: NEG-MSG".to_owned(),
            Capability::NegentropyClose => "unsupported: NEG-CLOSE".to_owned(),
        }
    }
}

/// A message from a client, as decoded from one text frame.
#[derive(Debug)]
pub enum ClientMessage {
    /// Publish an event.
    Publish(Event),
    /// Open (or replace) a subscription with one or more filters.
    Subscribe { sub_id: String, filters: Vec<Filter> },
    /// End a subscription.
    Close(String),
    /// A valid request for a capability this relay does not offer.
    Unsupported(Capability),
    /// A frame that did not decode; the text says what was wrong.
    Malformed(String),
}

/// A message from the relay to a client.
#[derive(Debug)]
pub enum RelayMessage {
    /// Whether a published event was accepted, and why not.
    Accepted { id: [u8; 32], ok: bool, reason: String },
    /// An event delivered to a subscription.
    Event { sub_id: String, event: Event },
    /// Stored events for the subscription have all been sent.
    EndOfStoredEvents(String),
    /// A human-readable notice.
    Notice(String),
    /// The subscription was closed.
    Closed { sub_id: String, reason: String },
}

/// A relay message addressed to one connection.
#[derive(Debug)]
pub struct Outbound {
    pub conn: u64,
    pub msg: RelayMessage,
}

} // verus!
