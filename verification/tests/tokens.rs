//! Issuing, verifying and revoking tokens.

use knova::auth::{AppError, Claims, KeyMaterial, TokenService};
use knova::common::time::{now_ms, unix_now, Span};
use knova::common::UserId;

fn service(active: &KeyMaterial, retired: Vec<KeyMaterial>) -> TokenService {
    TokenService::new(active, &retired, Span::from_secs(900))
}

fn now() -> u64 {
    unix_now().expect("the clock is set")
}

fn refused(tokens: &TokenService, token: &str) -> bool {
    matches!(tokens.verify(token), Err(AppError::InvalidToken))
}

#[test]
fn an_issued_token_verifies_to_its_claims() {
    let key = KeyMaterial::new("k1", "secret");
    let tokens = service(&key, Vec::new());
    let user = UserId::from("user \"1\" é");
    let before = now();
    let token = tokens.issue(&user, "al\nice").expect("signs");
    let claims = tokens.verify(&token).expect("verifies");
    assert_eq!(claims.sub, user);
    assert_eq!(claims.username, "al\nice");
    assert_eq!(claims.jti.len(), 36);
    assert!(before <= claims.iat && claims.iat <= now());
    assert_eq!(claims.exp, claims.iat + 900);
    assert_eq!(tokens.ttl_secs(), 900);
    let other = tokens.verify(&tokens.issue(&user, "alice").expect("signs"));
    assert_ne!(other.expect("verifies").jti, claims.jti);
}

#[test]
fn a_token_issued_at_a_time_carries_it() {
    let key = KeyMaterial::new("k1", "secret");
    let tokens = service(&key, Vec::new());
    let at = now();
    let token = tokens
        .issue_at(&UserId::from("u"), "alice", "id-1", at)
        .expect("signs");
    let claims = tokens.verify(&token).expect("verifies");
    assert_eq!(
        claims,
        Claims {
            sub: UserId::from("u"),
            username: "alice".to_owned(),
            jti: "id-1".to_owned(),
            exp: at + 900,
            iat: at,
        }
    );
    assert!(matches!(
        tokens.issue_at(&UserId::from("u"), "alice", "id-1", u64::MAX - 899),
        Err(AppError::Clock)
    ));
}

#[test]
fn a_foreign_signature_is_refused() {
    let tokens = service(&KeyMaterial::new("k1", "secret"), Vec::new());
    let forger = service(&KeyMaterial::new("k1", "another"), Vec::new());
    let token = forger.issue(&UserId::from("u"), "alice").expect("signs");
    assert!(refused(&tokens, &token));
    let genuine = tokens.issue(&UserId::from("u"), "alice").expect("signs");
    let parts: Vec<&str> = genuine.split('.').collect();
    assert!(refused(&tokens, &format!("{}.{}.", parts[0], parts[1])));
    assert!(refused(&tokens, &format!("{}.{}", parts[0], parts[1])));
    assert!(refused(&tokens, "not a token"));
    assert!(refused(&tokens, ""));
    // {"alg":"none","kid":"k1"}
    assert!(refused(
        &tokens,
        &format!("eyJhbGciOiJub25lIiwia2lkIjoiazEifQ.{}.", parts[1])
    ));
}

#[test]
fn an_unknown_key_id_is_refused() {
    let tokens = service(&KeyMaterial::new("k1", "secret"), Vec::new());
    let other = service(&KeyMaterial::new("k2", "secret"), Vec::new());
    let token = other.issue(&UserId::from("u"), "alice").expect("signs");
    assert!(refused(&tokens, &token));
    // A header without a key id: {"alg":"HS256","typ":"JWT"}
    assert!(refused(&tokens, "eyJhbGciOiJIUzI1NiIsInR5cCI6IkpXVCJ9.e30.AAAA"));
}

#[test]
fn a_rotation_keeps_sessions_alive() {
    let old = KeyMaterial::new("k1", "old secret");
    let new = KeyMaterial::new("k2", "new secret");
    let before = service(&old, Vec::new());
    let token = before.issue(&UserId::from("u"), "alice").expect("signs");
    let during = service(&new, vec![old.clone()]);
    assert_eq!(
        during.verify(&token).expect("still accepted"),
        before.verify(&token).expect("accepted")
    );
    let fresh = during.issue(&UserId::from("u"), "alice").expect("signs");
    assert!(during.verify(&fresh).is_ok());
    assert!(refused(&before, &fresh));
    let after = service(&new, Vec::new());
    assert!(refused(&after, &token));
}

#[test]
fn the_active_key_is_accepted_whatever_is_retired() {
    let active = KeyMaterial::new("k1", "new");
    let tokens = service(&active, vec![KeyMaterial::new("k1", "old")]);
    let token = tokens.issue(&UserId::from("u"), "alice").expect("signs");
    assert!(tokens.verify(&token).is_ok());
    let replaced = service(&KeyMaterial::new("k1", "old"), Vec::new());
    let stale = replaced.issue(&UserId::from("u"), "alice").expect("signs");
    assert!(refused(&tokens, &stale), "the active key has taken the id");
    let twice = service(
        &KeyMaterial::new("k2", "active"),
        vec![KeyMaterial::new("k1", "first"), KeyMaterial::new("k1", "old")],
    );
    assert!(twice.verify(&stale).is_ok(), "the later of two retired keys counts");
}

#[test]
fn an_expired_token_is_refused() {
    let tokens = service(&KeyMaterial::new("k1", "secret"), Vec::new());
    let user = UserId::from("u");
    let lately = tokens
        .issue_at(&user, "alice", "id-1", now() - 900 - 30)
        .expect("signs");
    assert!(refused(&tokens, &lately));
    let long_ago = tokens
        .issue_at(&user, "alice", "id-2", now() - 900 - 90)
        .expect("signs");
    assert!(refused(&tokens, &long_ago));
}

#[test]
fn a_token_is_accepted_up_to_the_second_of_its_expiry() {
    let mut tokens = service(&KeyMaterial::new("k1", "secret"), Vec::new());
    let token = tokens
        .issue_at(&UserId::from("u"), "alice", "id-1", 1_000)
        .expect("signs");
    for at in [0, 1_000, 1_899, 1_900] {
        let claims = tokens.verify_at(&token, at).expect("accepted");
        assert_eq!((claims.iat, claims.exp), (1_000, 1_900));
    }
    for at in [1_901, 1_960, u64::MAX] {
        assert!(matches!(
            tokens.verify_at(&token, at),
            Err(AppError::InvalidToken)
        ));
    }
    let claims = tokens.verify_at(&token, 1_900).expect("accepted");
    tokens.revoke_at(&claims, 1_000);
    assert!(matches!(
        tokens.verify_at(&token, 1_000),
        Err(AppError::InvalidToken)
    ));
    assert!(matches!(
        tokens.verify_at("not a token", 0),
        Err(AppError::InvalidToken)
    ));
}

#[test]
fn a_revoked_token_stays_refused_whatever_is_revoked_later() {
    let mut tokens = service(&KeyMaterial::new("k1", "secret"), Vec::new());
    let user = UserId::from("u");
    let first = tokens.issue_at(&user, "alice", "id-1", 1_000).expect("signs");
    let second = tokens.issue_at(&user, "bob", "id-2", 1_500).expect("signs");
    let third = tokens.issue_at(&user, "carol", "id-3", 1_500).expect("signs");
    let claims = tokens.verify_at(&first, 1_100).expect("accepted");
    tokens.revoke_at(&claims, 1_100);
    let others = tokens.verify_at(&second, 1_600).expect("accepted");
    for at in [1_600, 1_899, 1_900, 1_901, 2_000] {
        tokens.revoke_at(&others, at);
        assert!(tokens.verify_at(&first, at).is_err(), "{at}");
        assert!(tokens.verify_at(&first, at + 1).is_err(), "{at}");
        assert!(tokens.verify_at(&second, at).is_err(), "{at}");
        assert!(tokens.verify_at(&third, at).is_ok(), "{at}");
    }
    assert_eq!(tokens.revoked_count(), 1);
}

#[test]
fn a_revoked_token_is_refused_at_once() {
    let mut tokens = service(&KeyMaterial::new("k1", "secret"), Vec::new());
    let user = UserId::from("u");
    let first = tokens.issue(&user, "alice").expect("signs");
    let second = tokens.issue(&user, "alice").expect("signs");
    let claims = tokens.verify(&first).expect("verifies");
    assert_eq!(tokens.revoked_count(), 0);
    assert!(tokens.revoke(&claims).is_ok());
    assert!(refused(&tokens, &first));
    assert!(tokens.verify(&second).is_ok());
    assert_eq!(tokens.revoked_count(), 1);
    assert!(tokens.revoke(&claims).is_ok());
    assert_eq!(tokens.revoked_count(), 1);
    assert!(matches!(tokens.judge(Some(claims)), Err(AppError::InvalidToken)));
    assert!(matches!(tokens.judge(None), Err(AppError::InvalidToken)));
}

#[test]
fn revocations_are_forgotten_once_they_expire() {
    let mut tokens = service(&KeyMaterial::new("k1", "secret"), Vec::new());
    let claims = |jti: &str, exp: u64| Claims {
        sub: UserId::from("u"),
        username: "alice".to_owned(),
        jti: jti.to_owned(),
        exp,
        iat: 0,
    };
    tokens.revoke_at(&claims("a", 100), 10);
    tokens.revoke_at(&claims("b", 200), 10);
    tokens.revoke_at(&claims("c", 300), 99);
    assert_eq!(tokens.revoked_count(), 3);
    tokens.revoke_at(&claims("d", 50), 100);
    assert_eq!(tokens.revoked_count(), 4);
    tokens.revoke_at(&claims("d", 50), 100);
    assert_eq!(tokens.revoked_count(), 4);
    assert!(
        tokens.judge(Some(claims("a", 100))).is_err(),
        "still accepted in that second, so still remembered"
    );
    assert!(
        tokens.judge(Some(claims("d", 50))).is_err(),
        "even an expired token is recorded when it is revoked"
    );
    tokens.revoke_at(&claims("c", 300), 101);
    assert_eq!(tokens.revoked_count(), 2);
    assert!(tokens.judge(Some(claims("a", 100))).is_ok());
    assert!(tokens.judge(Some(claims("b", 200))).is_err());
    tokens.revoke_at(&claims("b", 200), 250);
    assert_eq!(tokens.revoked_count(), 2);
    tokens.revoke_at(&claims("b", 200), 301);
    assert_eq!(tokens.revoked_count(), 1);
}

#[test]
fn a_summary_shows_no_secret() {
    let tokens = service(
        &KeyMaterial::new("k1", "hush"),
        vec![KeyMaterial::new("k0", "hush too"), KeyMaterial::new("k1", "x")],
    );
    let summary = tokens.summary();
    assert_eq!(summary.active_kid, "k1");
    assert_eq!(summary.accepted_kids, vec!["k0", "k1"]);
    assert!(!format!("{summary:?}").contains("hush"));
}

#[test]
fn the_two_readings_of_the_wall_clock_agree() {
    let secs = now();
    let millis = now_ms();
    assert!(millis / 1000 >= secs && millis / 1000 <= secs + 2);
    assert_eq!(knova::common::time::reading_ms(None), 0);
    assert_eq!(knova::common::time::reading_ms(Some(1_999_999)), 1);
    assert_eq!(knova::common::time::reading_ms(Some(u128::MAX)), u64::MAX);
    assert_eq!(knova::common::time::reading_secs(Some(1_999_999_999)), Some(1));
    assert_eq!(knova::common::time::reading_secs(Some(u128::MAX)), None);
    assert_eq!(knova::common::time::reading_secs(None), None);
    assert_eq!(Span::from_millis(1500).as_secs(), 1);
}
