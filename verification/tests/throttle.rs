//! Login throttling.

use knova::auth::{LoginThrottle, Verdict};
use knova::common::time::Span;
use std::time::{Duration, Instant};

#[test]
fn an_account_is_throttled_after_the_limit() {
    let mut throttle = LoginThrottle::new(3, 100, Span::from_secs(60));

    for _ in 0..3 {
        assert_eq!(throttle.check("alice", None), Verdict::Allowed);
        throttle.record_failure("alice", None);
    }

    assert_eq!(throttle.check("alice", None), Verdict::AccountThrottled);
    assert_eq!(
        throttle.check("bob", None),
        Verdict::Allowed,
        "throttling one account must not affect another"
    );
}

#[test]
fn success_clears_the_account_counter() {
    let mut throttle = LoginThrottle::new(3, 100, Span::from_secs(60));

    throttle.record_failure("alice", None);
    throttle.record_failure("alice", None);
    throttle.record_success("alice");
    throttle.record_failure("alice", None);

    assert_eq!(throttle.check("alice", None), Verdict::Allowed);
}

#[test]
fn an_address_is_throttled_independently_of_the_account() {
    let address = Some("203.0.113.7");
    let mut throttle = LoginThrottle::new(100, 3, Span::from_secs(60));

    // A spray: a different username every time, so no account limit trips.
    for attempt in 0..3 {
        let username = format!("victim-{attempt}");
        assert_eq!(throttle.check(&username, address), Verdict::Allowed);
        throttle.record_failure(&username, address);
    }

    assert_eq!(
        throttle.check("victim-99", address),
        Verdict::AddressThrottled,
        "a spray across accounts must still be caught by the address limit"
    );
}

#[test]
fn counters_lapse_with_the_window() {
    let fast = Duration::from_millis(50);
    let mut throttle = LoginThrottle::new(2, 100, Span::from_millis(50));

    throttle.record_failure("alice", None);
    throttle.record_failure("alice", None);
    assert_eq!(throttle.check("alice", None), Verdict::AccountThrottled);

    let started = Instant::now();
    while started.elapsed() < fast * 2 {}
    assert_eq!(
        throttle.check("alice", None),
        Verdict::Allowed,
        "failures must not be remembered past the window"
    );
}

#[test]
fn the_window_starts_with_its_first_failure() {
    let mut throttle = LoginThrottle::new(2, 100, Span { nanos: 10 });
    throttle.record_failure_at("alice", None, 100);
    throttle.record_failure_at("alice", None, 109);
    assert_eq!(throttle.check_at("alice", None, 109), Verdict::AccountThrottled);
    assert_eq!(throttle.check_at("alice", None, 110), Verdict::Allowed);
    throttle.record_failure_at("alice", None, 200);
    throttle.record_failure_at("alice", None, 210);
    assert_eq!(
        throttle.check_at("alice", None, 210),
        Verdict::Allowed,
        "a failure after the window lapsed starts a fresh one"
    );
}

#[test]
fn the_address_limit_is_evaluated_first() {
    let mut throttle = LoginThrottle::new(1, 1, Span { nanos: 10 });
    throttle.record_failure_at("alice", Some("a"), 0);
    assert_eq!(throttle.check_at("alice", Some("a"), 0), Verdict::AddressThrottled);
    assert_eq!(throttle.check_at("alice", Some("b"), 0), Verdict::AccountThrottled);
    assert_eq!(throttle.check_at("bob", Some("b"), 0), Verdict::Allowed);
    throttle.record_success("alice");
    assert_eq!(throttle.check_at("alice", Some("b"), 0), Verdict::Allowed);
    assert_eq!(
        throttle.check_at("alice", Some("a"), 0),
        Verdict::AddressThrottled,
        "one success does not excuse the address"
    );
}

#[test]
fn a_limit_of_zero_throttles_from_the_first_failure() {
    let mut throttle = LoginThrottle::new(0, 100, Span { nanos: 10 });
    assert_eq!(throttle.check_at("alice", None, 0), Verdict::Allowed);
    throttle.record_failure_at("alice", None, 0);
    assert_eq!(throttle.check_at("alice", None, 0), Verdict::AccountThrottled);
}

#[test]
fn the_default_policy_is_five_and_twenty_in_five_minutes() {
    let mut throttle = LoginThrottle::default();
    for attempt in 0..20u32 {
        assert!(throttle.can_count("alice", Some("a")));
        let expected = if attempt < 5 {
            Verdict::Allowed
        } else {
            Verdict::AccountThrottled
        };
        assert_eq!(throttle.check_at("alice", Some("a"), 0), expected);
        throttle.record_failure_at("alice", Some("a"), 0);
    }
    assert_eq!(throttle.check_at("bob", Some("a"), 0), Verdict::AddressThrottled);
    let window: u128 = 300_000_000_000;
    assert_eq!(
        throttle.check_at("bob", Some("a"), window - 1),
        Verdict::AddressThrottled
    );
    assert_eq!(throttle.check_at("bob", Some("a"), window), Verdict::Allowed);
}

#[test]
fn checking_changes_no_verdict() {
    let mut throttle = LoginThrottle::new(1, 1, Span { nanos: 10 });
    throttle.record_failure_at("alice", Some("a"), 0);
    for _ in 0..3 {
        assert_eq!(throttle.check_at("alice", Some("a"), 9), Verdict::AddressThrottled);
        assert_eq!(throttle.check_at("alice", None, 9), Verdict::AccountThrottled);
        assert_eq!(throttle.check_at("bob", Some("b"), 9), Verdict::Allowed);
    }
    assert_eq!(throttle.check_at("alice", Some("a"), 10), Verdict::Allowed);
}
