//! Idempotency keys.

use knova::common::time::Span;
use knova::profile::idempotency::{Lookup, Recorded};
use knova::profile::IdempotencyStore;
use std::time::{Duration, Instant};

const BODY: &str = r#"{"address":"1 Main St"}"#;

fn recorded() -> Recorded {
    Recorded {
        status: 201,
        body: BODY.to_owned(),
        etag: Some("\"1\"".to_owned()),
    }
}

#[test]
fn a_fresh_key_is_reserved_then_replayed() {
    let mut store = IdempotencyStore::default();

    assert!(matches!(store.begin("u", "k", BODY), Lookup::Reserved));
    assert!(matches!(store.begin("u", "k", BODY), Lookup::InFlight));

    store.finish("u", "k", BODY, recorded());

    let Lookup::Replay(replayed) = store.begin("u", "k", BODY) else {
        panic!("a completed key must replay");
    };
    assert_eq!(replayed.status, 201);
    assert_eq!(replayed.body, BODY);
    assert_eq!(replayed.etag.as_deref(), Some("\"1\""));
}

#[test]
fn reusing_a_key_with_a_different_body_is_refused() {
    let mut store = IdempotencyStore::default();
    let _ = store.begin("u", "k", BODY);
    store.finish("u", "k", BODY, recorded());

    assert!(matches!(
        store.begin("u", "k", r#"{"address":"somewhere else"}"#),
        Lookup::BodyMismatch
    ));
}

#[test]
fn keys_are_scoped_to_one_user() {
    let mut store = IdempotencyStore::default();
    let _ = store.begin("alice", "k", BODY);

    assert!(
        matches!(store.begin("bob", "k", BODY), Lookup::Reserved),
        "one caller's key must not collide with another's"
    );
}

#[test]
fn an_abandoned_reservation_frees_the_key() {
    let mut store = IdempotencyStore::default();
    let _ = store.begin("u", "k", BODY);
    store.abandon("u", "k");

    assert!(matches!(store.begin("u", "k", BODY), Lookup::Reserved));
}

#[test]
fn a_recorded_outcome_survives_abandon() {
    let mut store = IdempotencyStore::default();
    let _ = store.begin("u", "k", BODY);
    store.finish("u", "k", BODY, recorded());
    store.abandon("u", "k");

    assert!(
        matches!(store.begin("u", "k", BODY), Lookup::Replay(_)),
        "a terminal response must never be released for re-execution"
    );
}

#[test]
fn a_stale_reservation_lapses() {
    let mut store = IdempotencyStore::new(Span::from_secs(60), Span::from_millis(30));
    let _ = store.begin("u", "k", BODY);

    let started = Instant::now();
    while started.elapsed() < Duration::from_millis(60) {}

    assert!(
        matches!(store.begin("u", "k", BODY), Lookup::Reserved),
        "a request that died mid-flight must not wedge its key"
    );
}

#[test]
fn the_two_windows_are_kept_apart() {
    let mut store = IdempotencyStore::new(Span { nanos: 100 }, Span { nanos: 10 });
    assert!(matches!(store.begin_at("u", "a", BODY, 0), Lookup::Reserved));
    assert!(matches!(store.begin_at("u", "a", BODY, 9), Lookup::InFlight));
    assert!(matches!(store.begin_at("u", "a", BODY, 10), Lookup::Reserved));
    store.finish_at("u", "a", BODY, recorded(), 15);
    assert!(matches!(store.begin_at("u", "b", BODY, 20), Lookup::Reserved));
    assert!(matches!(store.begin_at("u", "a", BODY, 114), Lookup::Replay(_)));
    assert!(matches!(store.begin_at("u", "a", BODY, 115), Lookup::Reserved));
    assert!(matches!(store.begin_at("u", "b", "other", 115), Lookup::Reserved));
}

#[test]
fn defaults_are_a_day_and_a_minute() {
    let minute: u128 = 60_000_000_000;
    let day: u128 = 86_400_000_000_000;
    let mut store = IdempotencyStore::default();
    assert!(matches!(store.begin_at("u", "k", BODY, 0), Lookup::Reserved));
    assert!(matches!(store.begin_at("u", "k", BODY, minute - 1), Lookup::InFlight));
    assert!(matches!(store.begin_at("u", "k", BODY, minute), Lookup::Reserved));
    store.finish_at("u", "k", BODY, recorded(), minute);
    assert!(matches!(
        store.begin_at("u", "k", BODY, minute + day - 1),
        Lookup::Replay(_)
    ));
    assert!(matches!(store.begin_at("u", "k", BODY, minute + day), Lookup::Reserved));
}

#[test]
fn many_keys_are_told_apart() {
    let mut store = IdempotencyStore::default();
    for i in 0..20 {
        let key = format!("k{i}");
        assert!(matches!(store.begin_at("u", &key, BODY, 0), Lookup::Reserved));
        if i % 3 == 0 {
            store.abandon("u", &key);
        } else if i % 3 == 1 {
            store.finish_at("u", &key, BODY, recorded(), 0);
        }
    }
    for i in 0..20 {
        let said = store.begin_at("u", &format!("k{i}"), BODY, 1);
        match i % 3 {
            0 => assert!(matches!(said, Lookup::Reserved)),
            1 => assert!(matches!(said, Lookup::Replay(_))),
            _ => assert!(matches!(said, Lookup::InFlight)),
        }
    }
}
