//! The user directory and its password hashes.

use knova::auth::password::{hashable, verdict_of, verify};
use knova::auth::{Authentication, UserDirectory};
use std::time::{Duration, Instant};

#[test]
fn constructing_the_directory_warms_the_decoy_hash() {
    let directory = UserDirectory::with_seed_user("alice", "hunter2");

    // Making the decoy hash here would run a full Argon2 — tens of milliseconds
    // in release, hundreds in debug. Warm, this is a pointer read. The gap is
    // wide enough that the assertion is not a timing race.
    let started = Instant::now();
    let _ = directory.decoy_hash();

    assert!(
        started.elapsed() < Duration::from_millis(1),
        "the decoy hash was still cold after construction, so the first \
         unknown-username login would cost two Argon2 passes instead of one \
         and leak account existence by timing"
    );
    assert!(verify("\0unassigned\0", directory.decoy_hash()));
}

#[test]
fn an_unknown_username_is_rejected_like_a_wrong_password() {
    let directory = UserDirectory::with_seed_user("alice", "hunter2");

    assert!(matches!(
        directory.authenticate("alice", "wrong"),
        Authentication::Rejected
    ));
    assert!(matches!(
        directory.authenticate("nobody", "wrong"),
        Authentication::Rejected
    ));
    assert!(matches!(
        directory.authenticate("alice", "hunter2"),
        Authentication::Authenticated(_)
    ));
}

#[test]
fn the_decoy_opens_no_account() {
    let directory = UserDirectory::with_seed_user("alice", "hunter2");
    assert!(matches!(
        directory.authenticate("nobody", "\0unassigned\0"),
        Authentication::Rejected
    ));
    let empty = UserDirectory::default();
    assert!(matches!(
        empty.authenticate("nobody", "\0unassigned\0"),
        Authentication::Rejected
    ));
}

#[test]
fn an_authenticated_account_shows_everything_but_its_hash() {
    let directory = UserDirectory::with_seed_user("alice", "hunter2");
    let Authentication::Authenticated(user) = directory.authenticate("alice", "hunter2") else {
        panic!("the seeded credentials must be accepted");
    };
    assert_eq!(user.username(), "alice");
    assert_eq!(user.id().as_str().len(), 36);
    let shown = format!("{:?}", user.summary());
    assert!(shown.contains("alice") && shown.contains("<redacted>"));
    assert!(!shown.contains("argon2"));
}

#[test]
fn a_malformed_hash_matches_nothing() {
    assert!(!verify("hunter2", "not a PHC string"));
    assert!(!verify("", ""));
    assert!(!verdict_of(None));
    assert!(!verdict_of(Some(false)));
    assert!(verdict_of(Some(true)));
    assert!(hashable("hunter2"));
}

#[test]
fn hashes_are_salted_argon2id() {
    let first = UserDirectory::default();
    let second = UserDirectory::default();
    assert!(first
        .decoy_hash()
        .starts_with("$argon2id$v=19$m=19456,t=2,p=1$"));
    assert_eq!(first.decoy_hash(), first.decoy_hash());
    assert_ne!(first.decoy_hash(), second.decoy_hash());
    assert!(verify("\0unassigned\0", first.decoy_hash()));
    assert!(verify("\0unassigned\0", second.decoy_hash()));
    assert!(!verify("another", first.decoy_hash()));
}

#[test]
fn a_hash_that_cannot_be_computed_matches_nothing() {
    let genuine = UserDirectory::default().decoy_hash().to_owned();
    for parallelism in ["536870912", "4294967295", "000000000", "99999999", "0"] {
        let phc = genuine.replace(",p=1$", &format!(",p={parallelism}$"));
        assert_ne!(phc, genuine);
        assert!(!verify("\0unassigned\0", &phc), "{parallelism}");
    }
}
