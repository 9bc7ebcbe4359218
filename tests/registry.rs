use rust_relay::event::Event;
use rust_relay::filter::Filter;
use rust_relay::registry::Registry;

fn kind_event(kind: u16) -> Event {
    Event {
        id: [1u8; 32],
        pubkey: [2u8; 32],
        created_at: 100,
        kind,
        tags: vec![],
        content: String::new(),
        sig: [0u8; 64],
    }
}

fn kinds(k: Vec<u16>) -> Filter {
    Filter { ids: vec![], authors: vec![], kinds: k, tags: vec![], since: None, until: None, limit: None }
}

#[test]
fn find_matching_returns_matching_subscriptions() {
    let mut r = Registry::new();
    r.register(1, "a".to_string(), vec![kinds(vec![1])]);
    r.register(2, "b".to_string(), vec![kinds(vec![2])]);
    r.register(3, "c".to_string(), vec![kinds(vec![1, 2])]);
    let mut got = r.find_matching(&kind_event(1));
    got.sort();
    assert_eq!(got, vec![(1, "a".to_string()), (3, "c".to_string())]);
    assert_eq!(r.len(), 3);
}

#[test]
fn second_registration_replaces_first() {
    let mut r = Registry::new();
    r.register(1, "s".to_string(), vec![kinds(vec![1])]);
    r.register(1, "s".to_string(), vec![kinds(vec![2])]);
    assert_eq!(r.len(), 1);
    assert!(r.find_matching(&kind_event(1)).is_empty());
    assert_eq!(r.find_matching(&kind_event(2)), vec![(1, "s".to_string())]);
}

#[test]
fn same_id_on_other_connection_is_separate() {
    let mut r = Registry::new();
    r.register(1, "s".to_string(), vec![kinds(vec![1])]);
    r.register(2, "s".to_string(), vec![kinds(vec![1])]);
    assert_eq!(r.len(), 2);
    assert_eq!(r.find_matching(&kind_event(1)).len(), 2);
}

#[test]
fn unregister_removes_one_subscription() {
    let mut r = Registry::new();
    r.register(1, "a".to_string(), vec![kinds(vec![1])]);
    r.register(1, "b".to_string(), vec![kinds(vec![1])]);
    r.unregister(1, &"a".to_string());
    assert_eq!(r.find_matching(&kind_event(1)), vec![(1, "b".to_string())]);
    r.unregister(1, &"missing".to_string());
    assert_eq!(r.len(), 1);
}

#[test]
fn unregister_all_removes_a_connection() {
    let mut r = Registry::new();
    r.register(1, "a".to_string(), vec![kinds(vec![1])]);
    r.register(1, "b".to_string(), vec![kinds(vec![])]);
    r.register(2, "a".to_string(), vec![kinds(vec![1])]);
    r.unregister_all(1);
    assert_eq!(r.find_matching(&kind_event(1)), vec![(2, "a".to_string())]);
    assert_eq!(r.len(), 1);
}
