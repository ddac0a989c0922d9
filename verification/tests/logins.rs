//! The login path, from the throttle to the answer on the wire.

use knova::auth::health::health;
use knova::auth::login::{conclude, grant, login, logout, offer, settle, start};
use knova::auth::{
    default_hash_permits, AppError, Authenticated, Authentication, KeyMaterial, LoginThrottle,
    TokenService, UserDirectory, Verdict,
};
use knova::common::dto::{LoginRequest, LoginResponse};
use knova::common::http::{Header, Reply};
use knova::common::time::Span;
use std::time::{Duration, Instant};

const USERNAME: &str = "alice";
const PASSWORD: &str = "correct-horse-battery-staple";

struct Service {
    users: UserDirectory,
    tokens: TokenService,
    throttle: LoginThrottle,
}

fn service() -> Service {
    Service {
        users: UserDirectory::with_seed_user(USERNAME, PASSWORD),
        tokens: TokenService::new(
            &KeyMaterial::new("test", "test-secret"),
            &Vec::new(),
            Span::from_secs(900),
        ),
        throttle: LoginThrottle::default(),
    }
}

impl Service {
    fn try_login(
        &mut self,
        permit: bool,
        username: &str,
        password: &str,
        address: Option<&str>,
    ) -> Result<LoginResponse, AppError> {
        let request = LoginRequest {
            username: username.to_owned(),
            password: password.to_owned(),
        };
        login(
            &self.users,
            &mut self.throttle,
            &self.tokens,
            permit,
            address,
            request,
        )
    }

    /// One login attempt, returning everything a caller could observe.
    fn attempt(&mut self, username: &str, password: &str) -> Reply {
        match self.try_login(true, username, password, None) {
            Ok(response) => Reply::json(200, response.to_json()),
            Err(error) => error.into_response(),
        }
    }
}

#[test]
fn indistinguishable_responses() {
    let mut service = service();
    let unknown_user = service.attempt("no-such-account", "irrelevant");
    let wrong_password = service.attempt(USERNAME, "not-the-password");

    assert_eq!(unknown_user.status, 401);
    assert_eq!(
        unknown_user, wrong_password,
        "an unknown username and a wrong password must be observationally identical; \
         any difference in status, content type, or body is a user-enumeration oracle"
    );

    // Pin the exact bytes, so a future edit that adds a helpful detail such as
    // "user not found" to one branch fails here rather than shipping.
    assert_eq!(
        unknown_user.body,
        r#"{"error":"invalid_credentials","message":"Invalid username or password."}"#
    );
    assert_eq!(
        unknown_user.headers,
        vec![("content-type".to_owned(), "application/json".to_owned())]
    );
}

#[test]
fn no_early_return_for_unknown_user() {
    // Argon2id at m=19456 KiB cannot complete in under a millisecond on any
    // machine that exists. Spending real time here proves the unknown-user path
    // verified against the decoy hash instead of short-circuiting on the lookup.
    const FLOOR: Duration = Duration::from_millis(5);

    let mut service = service();
    let started = Instant::now();
    let reply = service.attempt("no-such-account", "irrelevant");
    let elapsed = started.elapsed();

    assert_eq!(reply.status, 401);
    assert!(
        elapsed >= FLOOR,
        "unknown-user login returned in {elapsed:?}, faster than one Argon2 verification; \
         the lookup miss is short-circuiting and leaks account existence by timing"
    );
}

#[test]
fn valid_credentials_are_still_accepted() {
    let mut service = service();
    let reply = service.attempt(USERNAME, PASSWORD);

    assert_eq!(reply.status, 200, "the control case must still pass");
    assert!(
        reply.body.contains("access_token"),
        "a successful login must return a token"
    );
    let granted = service
        .try_login(true, USERNAME, PASSWORD, None)
        .expect("accepted");
    assert_eq!(granted.token_type, "Bearer");
    assert_eq!(granted.expires_in, 900);
    let claims = service.tokens.verify(&granted.access_token).expect("verifies");
    assert_eq!(claims.username, USERNAME);
}

#[test]
fn a_throttled_account_is_answered_like_a_wrong_password() {
    let mut service = service();
    let wrong = service.attempt(USERNAME, "wrong");
    for _ in 0..4 {
        assert_eq!(service.attempt(USERNAME, "wrong"), wrong);
    }
    assert_eq!(service.throttle.check(USERNAME, None), Verdict::AccountThrottled);
    assert_eq!(
        service.attempt(USERNAME, PASSWORD),
        wrong,
        "even the right password is refused while the account is throttled"
    );
}

#[test]
fn a_throttled_address_is_told_when_to_retry() {
    let mut service = service();
    for attempt in 0..20 {
        service
            .throttle
            .record_failure(&format!("victim-{attempt}"), Some("203.0.113.7"));
    }
    let refused = service.try_login(true, USERNAME, PASSWORD, Some("203.0.113.7"));
    assert!(matches!(refused, Err(AppError::AddressThrottled)));
    let reply = AppError::AddressThrottled.into_response();
    assert_eq!(reply.status, 429);
    assert!(reply
        .headers
        .contains(&("retry-after".to_owned(), "300".to_owned())));
    assert!(service
        .try_login(true, USERNAME, PASSWORD, Some("203.0.113.8"))
        .is_ok());
}

#[test]
fn saturation_is_refused_before_anything_else() {
    let mut service = service();
    let shed = service.try_login(false, USERNAME, PASSWORD, None);
    assert!(matches!(shed, Err(AppError::Overloaded)));
    assert!(matches!(
        start(&mut service.throttle, false, "nobody", "x".to_owned(), None),
        Err(AppError::Overloaded)
    ));
    let reply = AppError::Overloaded.into_response();
    assert_eq!(reply.status, 503);
    assert!(reply
        .headers
        .contains(&("retry-after".to_owned(), "1".to_owned())));
}

#[test]
fn verdicts_decide_what_is_verified() {
    assert_eq!(
        offer(Verdict::Allowed, "x".to_owned()).expect("verified"),
        "x"
    );
    assert_eq!(
        offer(Verdict::AccountThrottled, "x".to_owned()).expect("verified"),
        "\0throttled\0"
    );
    assert!(matches!(
        offer(Verdict::AddressThrottled, "x".to_owned()),
        Err(AppError::AddressThrottled)
    ));
    let mut throttle = LoginThrottle::new(1, 9, Span::from_secs(60));
    assert_eq!(
        start(&mut throttle, true, "alice", "x".to_owned(), None).expect("started"),
        (Verdict::Allowed, "x".to_owned())
    );
    throttle.record_failure("alice", None);
    assert_eq!(
        start(&mut throttle, true, "alice", "x".to_owned(), None).expect("started"),
        (Verdict::AccountThrottled, "\0throttled\0".to_owned())
    );
    assert_eq!(default_hash_permits(Some(6)), 6);
    assert_eq!(default_hash_permits(Some(1)), 1);
    assert_eq!(default_hash_permits(None), 2);
}

#[test]
fn a_throttled_account_is_rejected_whatever_was_verified() {
    let mut service = Service {
        users: UserDirectory::with_seed_user(USERNAME, "\0throttled\0"),
        ..service()
    };
    for verdict in [Verdict::Allowed, Verdict::AccountThrottled] {
        let found = service.users.authenticate(USERNAME, "\0throttled\0");
        assert!(matches!(found, Authentication::Authenticated(_)));
        assert_eq!(
            matches!(settle(verdict, found), Authentication::Rejected),
            verdict == Verdict::AccountThrottled
        );
    }
    for _ in 0..LoginThrottle::DEFAULT_ACCOUNT_LIMIT {
        service.throttle.record_failure(USERNAME, None);
    }
    assert!(matches!(
        service.try_login(true, USERNAME, "\0throttled\0", None),
        Err(AppError::InvalidCredentials)
    ));
}

#[test]
fn success_clears_the_count_and_failure_adds_to_it() {
    let mut service = service();
    for _ in 0..4 {
        let rejected = conclude(
            &mut service.throttle,
            &service.tokens,
            USERNAME,
            None,
            Authentication::Rejected,
        );
        assert!(matches!(rejected, Err(AppError::InvalidCredentials)));
    }
    assert!(service.try_login(true, USERNAME, PASSWORD, None).is_ok());
    for _ in 0..4 {
        service.throttle.record_failure(USERNAME, None);
    }
    assert_eq!(service.throttle.check(USERNAME, None), Verdict::Allowed);
}

#[test]
fn an_issued_token_is_granted_and_a_failure_is_passed_on() {
    let service = service();
    let granted = grant(&service.tokens, Ok("the token".to_owned())).expect("granted");
    assert_eq!(granted.access_token, "the token");
    assert_eq!(granted.token_type, "Bearer");
    assert_eq!(granted.expires_in, 900);
    assert!(matches!(
        grant(&service.tokens, Err(AppError::Clock)),
        Err(AppError::Clock)
    ));
}

#[test]
fn a_logout_revokes_the_presented_token() {
    let mut service = service();
    let granted = service
        .try_login(true, USERNAME, PASSWORD, None)
        .expect("accepted");
    let headers = vec![Header::with_text(
        "authorization",
        &format!("bearer  {} ", granted.access_token),
    )];
    let Authenticated(claims) =
        Authenticated::from_headers(&headers, &service.tokens).expect("authenticated");
    assert_eq!(logout(&mut service.tokens, &claims).expect("revoked"), 204);
    assert!(matches!(
        Authenticated::from_headers(&headers, &service.tokens),
        Err(AppError::InvalidToken)
    ));
}

#[test]
fn every_error_has_its_place_on_the_wire() {
    let unauthorized = (401, "unauthorized", "A valid bearer token is required.");
    let internal = (500, "internal_error", "An unexpected error occurred.");
    let cases = [
        (
            AppError::InvalidCredentials,
            (401, "invalid_credentials", "Invalid username or password."),
            "invalid credentials",
        ),
        (AppError::MissingBearer, unauthorized, "missing bearer token"),
        (AppError::InvalidToken, unauthorized, "invalid token"),
        (
            AppError::AddressThrottled,
            (
                429,
                "too_many_requests",
                "Too many failed attempts from this address. Retry later.",
            ),
            "too many failed logins from this address",
        ),
        (
            AppError::Overloaded,
            (503, "overloaded", "The service is at capacity. Retry shortly."),
            "password verification capacity exhausted",
        ),
        (
            AppError::Upstream("refused".to_owned()),
            (
                502,
                "upstream_unavailable",
                "The profile service is unavailable.",
            ),
            "upstream request failed",
        ),
        (
            AppError::BlockingTask("panicked".to_owned()),
            internal,
            "blocking task failed",
        ),
        (AppError::Clock, internal, "wall clock is out of range"),
    ];
    for (error, parts, text) in cases {
        assert_eq!(error.parts(), parts);
        assert_eq!(error.to_string(), text);
        let reply = error.into_response();
        assert_eq!(reply.status, parts.0);
        assert_eq!(
            reply.body,
            format!(r#"{{"error":"{}","message":"{}"}}"#, parts.1, parts.2)
        );
    }
}

#[test]
fn the_gateway_probe_is_ok() {
    let reply = health();
    assert_eq!(reply.status, 200);
    assert_eq!(reply.body, r#"{"status":"ok"}"#);
}
