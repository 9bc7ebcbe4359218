use rust_relay::event::Event;
use rust_relay::filter::{subscription_matches, Filter, TagConstraint};

fn event_of(kind: u16, created_at: u64, tags: Vec<Vec<&str>>) -> Event {
    Event {
        id: [7u8; 32],
        pubkey: [9u8; 32],
        created_at,
        kind,
        tags: tags.into_iter().map(|t| t.into_iter().map(|s| s.to_string()).collect()).collect(),
        content: String::new(),
        sig: [0u8; 64],
    }
}

fn any_filter() -> Filter {
    Filter { ids: vec![], authors: vec![], kinds: vec![], tags: vec![], since: None, until: None, limit: None }
}

fn kind_filter(k: u16) -> Filter {
    Filter { kinds: vec![k], ..any_filter() }
}

#[test]
fn empty_filter_matches_everything() {
    assert!(any_filter().matches(&event_of(3, 0, vec![])));
    assert!(any_filter().matches(&event_of(65535, u64::MAX, vec![vec!["p", "x"]])));
}

#[test]
fn kind_constraint() {
    let f = Filter { kinds: vec![1, 7], ..any_filter() };
    assert!(f.matches(&event_of(1, 0, vec![])));
    assert!(f.matches(&event_of(7, 0, vec![])));
    assert!(!f.matches(&event_of(2, 0, vec![])));
}

#[test]
fn timestamp_bounds_are_inclusive() {
    let f = Filter { since: Some(10), until: Some(20), ..any_filter() };
    assert!(!f.matches(&event_of(1, 9, vec![])));
    assert!(f.matches(&event_of(1, 10, vec![])));
    assert!(f.matches(&event_of(1, 20, vec![])));
    assert!(!f.matches(&event_of(1, 21, vec![])));
}

#[test]
fn id_and_author_constraints() {
    let e = event_of(1, 0, vec![]);
    assert!(Filter { ids: vec![[1u8; 32], [7u8; 32]], ..any_filter() }.matches(&e));
    assert!(!Filter { ids: vec![[1u8; 32]], ..any_filter() }.matches(&e));
    assert!(Filter { authors: vec![[9u8; 32]], ..any_filter() }.matches(&e));
    assert!(!Filter { authors: vec![[8u8; 32]], ..any_filter() }.matches(&e));
}

#[test]
fn tag_constraint_needs_a_matching_value() {
    let f = Filter {
        tags: vec![TagConstraint { name: "t".to_string(), values: vec!["rust".to_string(), "verus".to_string()] }],
        ..any_filter()
    };
    assert!(f.matches(&event_of(1, 0, vec![vec!["t", "verus"]])));
    assert!(!f.matches(&event_of(1, 0, vec![vec!["t", "go"]])));
    assert!(!f.matches(&event_of(1, 0, vec![vec!["p", "rust"]])));
    assert!(!f.matches(&event_of(1, 0, vec![])));
    assert!(!f.matches(&event_of(1, 0, vec![vec!["t"]])));
}

#[test]
fn empty_tag_value_set_is_unconstrained() {
    let f = Filter { tags: vec![TagConstraint { name: "t".to_string(), values: vec![] }], ..any_filter() };
    assert!(f.matches(&event_of(1, 0, vec![])));
}

#[test]
fn constraints_combine_by_conjunction() {
    let f = Filter { kinds: vec![1], since: Some(5), ..any_filter() };
    assert!(f.matches(&event_of(1, 5, vec![])));
    assert!(!f.matches(&event_of(2, 5, vec![])));
    assert!(!f.matches(&event_of(1, 4, vec![])));
    let g = Filter { since: Some(5), kinds: vec![1], ..any_filter() };
    for e in [event_of(1, 5, vec![]), event_of(2, 5, vec![]), event_of(1, 4, vec![])] {
        assert_eq!(f.matches(&e), g.matches(&e));
    }
}

#[test]
fn two_kind_filters_match_either_kind() {
    let filters = vec![kind_filter(1), kind_filter(2)];
    assert!(subscription_matches(&filters, &event_of(1, 0, vec![])));
    assert!(subscription_matches(&filters, &event_of(2, 0, vec![])));
    assert!(!subscription_matches(&filters, &event_of(3, 0, vec![])));
    assert!(!subscription_matches(&filters, &event_of(0, 0, vec![])));
}

#[test]
fn no_filters_match_nothing() {
    assert!(!subscription_matches(&vec![], &event_of(1, 0, vec![])));
}
