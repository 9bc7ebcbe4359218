use nostr::event::{EventId, Kind, Tag, Tags};
use nostr::key::Keys;
use nostr::types::Timestamp;
use rust_relay::event::Event;
use rust_relay::filter::Filter;
use rust_relay::message::{Capability, ClientMessage, Outbound, RelayMessage};
use rust_relay::relay::Relay;
use rust_relay::session::{accepts_messages, next_state, SessionEvent, SessionState};

fn make_signed(keys: &Keys, created_at: u64, kind: u16, content: &str) -> Event {
    let pk = keys.public_key();
    let tags: Vec<Vec<String>> = vec![];
    let ntags = Tags::from_list(tags.iter().map(|t| Tag::parse(t.clone()).unwrap()).collect());
    let id = EventId::compute(&pk, &Timestamp::from_secs(created_at), &Kind::from_u16(kind), &ntags, content);
    let sig = keys.sign_schnorr(id.as_bytes());
    Event {
        id: id.to_bytes(),
        pubkey: pk.to_bytes(),
        created_at,
        kind,
        tags,
        content: content.to_string(),
        sig: sig.to_bytes(),
    }
}

fn kind_only(k: u16, limit: Option<usize>) -> Filter {
    Filter { ids: vec![], authors: vec![], kinds: vec![k], tags: vec![], since: None, until: None, limit }
}

fn open_relay(conns: &[u64]) -> Relay {
    let mut r = Relay::new();
    for c in conns {
        r.connect(*c);
    }
    r
}

fn deliveries_to(out: &[Outbound], conn: u64) -> Vec<(String, [u8; 32])> {
    out.iter()
        .filter(|o| o.conn == conn)
        .filter_map(|o| match &o.msg {
            RelayMessage::Event { sub_id, event } => Some((sub_id.clone(), event.id)),
            _ => None,
        })
        .collect()
}

#[test]
fn publish_valid_event_is_accepted_and_delivered() {
    let keys = Keys::generate();
    let mut relay = open_relay(&[1, 2]);
    let sub = relay.handle(2, ClientMessage::Subscribe { sub_id: "notes".to_string(), filters: vec![kind_only(1, None)] });
    assert_eq!(sub.len(), 1);
    let e = make_signed(&keys, 1_700_000_000, 1, "hello");
    let id = e.id;
    let out = relay.handle(1, ClientMessage::Publish(e));
    assert_eq!(deliveries_to(&out, 2), vec![("notes".to_string(), id)]);
    let last = out.last().unwrap();
    assert_eq!(last.conn, 1);
    match &last.msg {
        RelayMessage::Accepted { id: got, ok, reason } => {
            assert_eq!(*got, id);
            assert!(*ok);
            assert_eq!(reason, "");
        }
        other => panic!("unexpected {:?}", other),
    }
    let unrelated = make_signed(&keys, 1_700_000_001, 1, "later");
    let later_id = unrelated.id;
    let out2 = relay.handle(1, ClientMessage::Publish(unrelated));
    assert_eq!(deliveries_to(&out2, 2), vec![("notes".to_string(), later_id)]);
}

#[test]
fn subscribe_respects_limit() {
    let keys = Keys::generate();
    let mut relay = open_relay(&[1, 2]);
    let mut ids = vec![];
    for i in 0..3u64 {
        let e = make_signed(&keys, 100 + i, 1, "stored");
        ids.push(e.id);
        relay.handle(1, ClientMessage::Publish(e));
    }
    let out = relay.handle(2, ClientMessage::Subscribe { sub_id: "s".to_string(), filters: vec![kind_only(1, Some(2))] });
    assert_eq!(out.len(), 3);
    assert_eq!(deliveries_to(&out, 2), vec![("s".to_string(), ids[2]), ("s".to_string(), ids[1])]);
    match &out[2].msg {
        RelayMessage::EndOfStoredEvents(s) => assert_eq!(s, "s"),
        other => panic!("unexpected {:?}", other),
    }
}

#[test]
fn subscribe_without_limit_gets_all_matching_backlog() {
    let keys = Keys::generate();
    let mut relay = open_relay(&[1]);
    relay.handle(1, ClientMessage::Publish(make_signed(&keys, 1, 1, "a")));
    relay.handle(1, ClientMessage::Publish(make_signed(&keys, 2, 2, "b")));
    relay.handle(1, ClientMessage::Publish(make_signed(&keys, 3, 1, "c")));
    let out = relay.handle(1, ClientMessage::Subscribe { sub_id: "x".to_string(), filters: vec![kind_only(1, None)] });
    assert_eq!(out.len(), 3);
    assert_eq!(deliveries_to(&out, 1).len(), 2);
}

#[test]
fn corrupted_signature_is_refused_and_not_delivered() {
    let keys = Keys::generate();
    let mut relay = open_relay(&[1, 2]);
    relay.handle(2, ClientMessage::Subscribe { sub_id: "all".to_string(), filters: vec![kind_only(1, None)] });
    let mut e = make_signed(&keys, 5, 1, "hello");
    e.sig[3] ^= 0x01;
    let id = e.id;
    let out = relay.handle(1, ClientMessage::Publish(e));
    assert_eq!(out.len(), 1);
    assert_eq!(out[0].conn, 1);
    match &out[0].msg {
        RelayMessage::Accepted { id: got, ok, reason } => {
            assert_eq!(*got, id);
            assert!(!*ok);
            assert_eq!(reason, "invalid: signature does not verify");
        }
        other => panic!("unexpected {:?}", other),
    }
    let later = relay.handle(2, ClientMessage::Subscribe { sub_id: "all".to_string(), filters: vec![kind_only(1, None)] });
    assert_eq!(later.len(), 1);
}

#[test]
fn tampered_event_is_refused_for_its_identifier() {
    let keys = Keys::generate();
    let mut relay = open_relay(&[1]);
    let mut e = make_signed(&keys, 5, 1, "hello");
    e.content = "jello".to_string();
    let out = relay.handle(1, ClientMessage::Publish(e));
    match &out[0].msg {
        RelayMessage::Accepted { ok, reason, .. } => {
            assert!(!*ok);
            assert_eq!(reason, "invalid: event id does not match");
        }
        other => panic!("unexpected {:?}", other),
    }
}

#[test]
fn event_with_empty_tag_is_refused() {
    let keys = Keys::generate();
    let mut relay = open_relay(&[1]);
    let mut e = make_signed(&keys, 5, 1, "hello");
    e.tags = vec![vec![]];
    let out = relay.handle(1, ClientMessage::Publish(e));
    match &out[0].msg {
        RelayMessage::Accepted { ok, reason, .. } => {
            assert!(!*ok);
            assert_eq!(reason, "invalid: empty tag");
        }
        other => panic!("unexpected {:?}", other),
    }
}

#[test]
fn resubscribing_replaces_filters() {
    let keys = Keys::generate();
    let mut relay = open_relay(&[1, 2]);
    relay.handle(2, ClientMessage::Subscribe { sub_id: "s".to_string(), filters: vec![kind_only(1, None)] });
    relay.handle(2, ClientMessage::Subscribe { sub_id: "s".to_string(), filters: vec![kind_only(2, None)] });
    let out = relay.handle(1, ClientMessage::Publish(make_signed(&keys, 9, 1, "one")));
    assert!(deliveries_to(&out, 2).is_empty());
    let out = relay.handle(1, ClientMessage::Publish(make_signed(&keys, 9, 2, "two")));
    assert_eq!(deliveries_to(&out, 2).len(), 1);
}

#[test]
fn disconnect_stops_deliveries() {
    let keys = Keys::generate();
    let mut relay = open_relay(&[1, 2]);
    relay.handle(2, ClientMessage::Subscribe { sub_id: "s".to_string(), filters: vec![kind_only(1, None)] });
    relay.disconnect(2);
    assert!(!relay.connection_open(2));
    let out = relay.handle(1, ClientMessage::Publish(make_signed(&keys, 9, 1, "one")));
    assert!(deliveries_to(&out, 2).is_empty());
    assert_eq!(out.len(), 1);
    let ignored = relay.handle(2, ClientMessage::Subscribe { sub_id: "s".to_string(), filters: vec![] });
    assert!(ignored.is_empty());
}

#[test]
fn close_ends_subscription() {
    let keys = Keys::generate();
    let mut relay = open_relay(&[1, 2]);
    relay.handle(2, ClientMessage::Subscribe { sub_id: "s".to_string(), filters: vec![kind_only(1, None)] });
    let out = relay.handle(2, ClientMessage::Close("s".to_string()));
    assert_eq!(out.len(), 1);
    match &out[0].msg {
        RelayMessage::Closed { sub_id, reason } => {
            assert_eq!(sub_id, "s");
            assert_eq!(reason, "");
        }
        other => panic!("unexpected {:?}", other),
    }
    let out = relay.handle(1, ClientMessage::Publish(make_signed(&keys, 9, 1, "one")));
    assert!(deliveries_to(&out, 2).is_empty());
}

#[test]
fn unsupported_capability_gets_notice() {
    let mut relay = open_relay(&[1]);
    let out = relay.handle(1, ClientMessage::Unsupported(Capability::Count));
    assert_eq!(out.len(), 1);
    match &out[0].msg {
        RelayMessage::Notice(t) => assert_eq!(t, "unsupported: COUNT"),
        other => panic!("unexpected {:?}", other),
    }
    let out = relay.handle(1, ClientMessage::Unsupported(Capability::NegentropyOpen));
    match &out[0].msg {
        RelayMessage::Notice(t) => assert_eq!(t, "unsupported: NEG-OPEN"),
        other => panic!("unexpected {:?}", other),
    }
}

#[test]
fn malformed_frame_gets_notice() {
    let mut relay = open_relay(&[1]);
    let out = relay.handle(1, ClientMessage::Malformed("bad kind".to_string()));
    match &out[0].msg {
        RelayMessage::Notice(t) => assert_eq!(t, "bad kind"),
        other => panic!("unexpected {:?}", other),
    }
}

#[test]
fn unknown_connection_is_ignored() {
    let mut relay = Relay::new();
    assert!(relay.handle(5, ClientMessage::Malformed("x".to_string())).is_empty());
}

#[test]
fn session_lifecycle() {
    let s = next_state(SessionState::Connecting, SessionEvent::Upgraded);
    assert_eq!(s, SessionState::Open);
    assert!(accepts_messages(s));
    let s = next_state(s, SessionEvent::Terminated);
    assert_eq!(s, SessionState::Closing);
    assert!(!accepts_messages(s));
    let s = next_state(s, SessionEvent::CleanedUp);
    assert_eq!(s, SessionState::Closed);
    assert_eq!(next_state(s, SessionEvent::Upgraded), SessionState::Closed);
    assert_eq!(next_state(SessionState::Connecting, SessionEvent::Terminated), SessionState::Closed);
}
