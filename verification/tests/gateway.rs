//! The gateway hop: authentication, forwarding and correlation.

use knova::auth::extract::bearer_token;
use knova::auth::gateway::{forward, proxy, relay, replay, Relay};
use knova::auth::tracing_id::{echo, is_acceptable, propagate, MAX_LEN};
use knova::auth::{AppError, Authenticated, KeyMaterial, TokenService, Upstream};
use knova::common::http::{find_header, set_header, to_text, Header};
use knova::common::time::Span;
use knova::common::UserId;
use knova::profile::auth::gateway_guard;
use knova::profile::{tracing_id, Caller, ProfileError};

fn header(name: &str, value: &str) -> Header {
    Header::with_text(name, value)
}

fn tokens() -> TokenService {
    TokenService::new(
        &KeyMaterial::new("test", "test-secret"),
        &Vec::new(),
        Span::from_secs(900),
    )
}

fn upstream() -> Upstream {
    Upstream::new("http://127.0.0.1:0", "test-internal-token")
}

fn text(headers: &Vec<Header>, name: &str) -> Option<String> {
    find_header(headers, name).and_then(to_text)
}

#[test]
fn plausible_ids_are_kept() {
    assert!(is_acceptable("0199f2a1-3c4d-7e8f-9a0b-1c2d3e4f5a6b"));
    assert!(is_acceptable("req_12345"));
}

#[test]
fn log_breaking_or_oversized_ids_are_rejected() {
    assert!(!is_acceptable(""));
    assert!(!is_acceptable("has space"));
    assert!(!is_acceptable("line\nbreak"));
    assert!(!is_acceptable(&"x".repeat(MAX_LEN + 1)));
}

#[test]
fn the_longest_id_is_kept_and_accents_are_not() {
    assert!(is_acceptable(&"x".repeat(MAX_LEN)));
    assert!(!is_acceptable("é"));
}

#[test]
fn profile_routes_require_a_token() {
    // Rejected at the gateway, so the profile service is never contacted.
    let refused = proxy(&upstream(), &tokens(), "/profile", &Vec::new());
    let Err(error) = refused else {
        panic!("a request without a token must be refused");
    };
    assert!(matches!(error, AppError::MissingBearer));
    assert_eq!(error.into_response().status, 401);
}

#[test]
fn bearer_tokens_are_read_as_the_scheme_says() {
    let read = |value: &str| bearer_token(&vec![header("authorization", value)]).ok();
    assert_eq!(read("Bearer abc"), Some("abc".to_owned()));
    assert_eq!(read("bEaReR   abc\t"), Some("abc".to_owned()));
    assert_eq!(read("Bearer a b"), Some("a b".to_owned()));
    assert_eq!(read("Bearer "), Some(String::new()));
    assert_eq!(read("Bearer"), None);
    assert_eq!(read("Basic abc"), None);
    assert_eq!(read("Bearer é"), None);
    assert_eq!(read(" Bearer abc"), None);
    assert!(matches!(
        bearer_token(&Vec::new()),
        Err(AppError::MissingBearer)
    ));
}

#[test]
fn a_spoofed_identity_never_reaches_the_upstream() {
    let tokens = tokens();
    let user = UserId::from("the-real-user");
    let token = tokens.issue(&user, "alice").expect("signs");
    let request = proxy(
        &upstream(),
        &tokens,
        "/profile",
        &vec![
            header("x-user-id", "someone-else"),
            header("x-internal-token", "guessed"),
            header("authorization", &format!("Bearer {token}")),
            header("cookie", "session"),
            header("content-type", "application/json"),
            header("if-match", "\"1\""),
            header("idempotency-key", "k"),
            header("x-request-id", "req-1"),
        ],
    )
    .expect("authenticated");
    assert_eq!(request.url, "http://127.0.0.1:0/profile");
    let sent: Vec<(String, String)> = request
        .headers
        .iter()
        .map(|header| {
            let value = to_text(&header.value).expect("text");
            (header.name.clone(), value)
        })
        .collect();
    let expected = [
        ("x-internal-token", "test-internal-token"),
        ("x-user-id", "the-real-user"),
        ("content-type", "application/json"),
        ("if-match", "\"1\""),
        ("idempotency-key", "k"),
        ("x-request-id", "req-1"),
    ];
    let expected: Vec<(String, String)> = expected
        .iter()
        .map(|(name, value)| ((*name).to_owned(), (*value).to_owned()))
        .collect();
    assert_eq!(sent, expected);

    // What the gateway sends is what the profile service takes.
    let (correlation, admitted) = gateway_guard(&request.headers, "test-internal-token");
    assert!(admitted.is_ok());
    assert_eq!(correlation, Some(b"req-1".to_vec()));
    let Caller(caller) = Caller::from_headers(&request.headers).expect("a caller");
    assert_eq!(caller, user);
}

#[test]
fn an_invalid_token_is_refused_at_the_gateway() {
    let foreign = TokenService::new(
        &KeyMaterial::new("test", "another"),
        &Vec::new(),
        Span::from_secs(900),
    );
    let token = foreign.issue(&UserId::from("u"), "alice").expect("signs");
    let headers = vec![header("authorization", &format!("Bearer {token}"))];
    assert!(matches!(
        proxy(&upstream(), &tokens(), "/profile", &headers),
        Err(AppError::InvalidToken)
    ));
}

#[test]
fn absent_headers_are_not_forwarded() {
    let tokens = tokens();
    let token = tokens.issue(&UserId::from("u"), "alice").expect("signs");
    let claims = tokens.verify(&token).expect("verifies");
    let request = forward(&upstream(), &claims, "/profile/history", &Vec::new());
    assert_eq!(request.url, "http://127.0.0.1:0/profile/history");
    assert_eq!(request.headers.len(), 2);
}

#[test]
fn two_headers_of_the_response_are_relayed() {
    let answer = relay(Ok(Relay {
        status: 412,
        headers: vec![
            header("server", "secret"),
            header("etag", "\"2\""),
            header("content-type", "application/json"),
        ],
        body: b"{}".to_vec(),
    }))
    .expect("relayed");
    assert_eq!(answer.status, 412);
    assert_eq!(answer.body, b"{}");
    assert_eq!(
        answer.headers,
        vec![
            header("content-type", "application/json"),
            header("etag", "\"2\"")
        ]
    );
    assert!(matches!(
        relay(Err("connection refused".to_owned())),
        Err(AppError::Upstream(_))
    ));
}

#[test]
fn an_acceptable_id_is_propagated_and_junk_is_replaced() {
    let (id, headers) = propagate(&vec![header("x-request-id", "req_1"), header("a", "b")]);
    assert_eq!(id, "req_1");
    assert_eq!(text(&headers, "x-request-id"), Some("req_1".to_owned()));
    assert_eq!(text(&headers, "a"), Some("b".to_owned()));

    let junk = vec![header("x-request-id", "has space"), header("x-request-id", "two")];
    let (id, headers) = propagate(&junk);
    assert!(is_acceptable(&id) && id.len() == 36);
    assert_eq!(headers, vec![header("x-request-id", &id)]);
    let (other, _) = propagate(&Vec::new());
    assert_ne!(id, other);

    let echoed = echo(&vec![header("x-request-id", "old"), header("a", "b")], &id);
    assert_eq!(text(&echoed, "x-request-id"), Some(id));
    assert_eq!(echoed.len(), 2);
}

#[test]
fn the_profile_service_adopts_the_id_it_is_given() {
    let headers = vec![header("x-request-id", "req-1")];
    assert_eq!(tracing_id::inbound(&headers), Some(b"req-1".to_vec()));
    assert_eq!(tracing_id::inbound(&Vec::new()), None);
    assert_eq!(tracing_id::echo(Vec::new(), None), Vec::new());
    assert_eq!(
        tracing_id::echo(Vec::new(), Some(b"req-1".to_vec())),
        headers
    );
}

#[test]
fn direct_access_without_the_internal_token_is_refused() {
    let headers = vec![header("x-user-id", "user-under-test")];
    let (_, admitted) = gateway_guard(&headers, "test-internal-token");
    let Err(error) = admitted else {
        panic!(
            "a caller that reaches the profile port directly must not be served, \
             even though it supplied a plausible user id"
        );
    };
    assert!(matches!(error, ProfileError::NotInternal));
    assert_eq!(error.into_response().status, 403);
    let wrong = vec![header("x-internal-token", "test-internal-tokeN")];
    assert!(gateway_guard(&wrong, "test-internal-token").1.is_err());
    let short = vec![header("x-internal-token", "test-internal")];
    assert!(gateway_guard(&short, "test-internal-token").1.is_err());
}

#[test]
fn an_absent_header_is_not_the_empty_token() {
    assert!(matches!(
        gateway_guard(&Vec::new(), "").1,
        Err(ProfileError::NotInternal)
    ));
    let empty = vec![header("x-internal-token", "")];
    assert!(gateway_guard(&empty, "").1.is_ok());
    assert!(gateway_guard(&empty, "test-internal-token").1.is_err());
}

#[test]
fn a_request_is_authenticated_at_a_time() {
    let tokens = tokens();
    let token = tokens
        .issue_at(&UserId::from("u"), "alice", "id-1", 1_000)
        .expect("signs");
    let headers = vec![header("authorization", &format!("Bearer {token}"))];
    let caller = Authenticated::from_headers_at(&headers, &tokens, 1_900).expect("a caller");
    assert_eq!(caller.0.sub, UserId::from("u"));
    assert!(matches!(
        Authenticated::from_headers_at(&headers, &tokens, 1_901),
        Err(AppError::InvalidToken)
    ));
    assert!(matches!(
        Authenticated::from_headers_at(&Vec::new(), &tokens, 1_900),
        Err(AppError::MissingBearer)
    ));

    let request = replay(&upstream(), Ok(caller), "/profile", &headers).expect("forwarded");
    assert_eq!(request.url, "http://127.0.0.1:0/profile");
    assert_eq!(text(&request.headers, "x-user-id").as_deref(), Some("u"));
    assert_eq!(
        text(&request.headers, "x-internal-token").as_deref(),
        Some("test-internal-token")
    );
    assert!(matches!(
        replay(&upstream(), Err(AppError::MissingBearer), "/profile", &headers),
        Err(AppError::MissingBearer)
    ));
}

#[test]
fn a_caller_must_be_named() {
    for headers in [
        Vec::new(),
        vec![header("x-user-id", "")],
        vec![header("x-user-id", "é")],
    ] {
        assert!(matches!(
            Caller::from_headers(&headers),
            Err(ProfileError::MissingCaller)
        ));
    }
}

#[test]
fn the_first_header_of_a_name_counts() {
    let headers = vec![header("a", "1"), header("a", "2"), header("b", "3")];
    assert_eq!(text(&headers, "a"), Some("1".to_owned()));
    assert_eq!(text(&headers, "c"), None);
    let set = set_header(&headers, "a", b"4");
    assert_eq!(set, vec![header("a", "4"), header("b", "3")]);
    assert_eq!(to_text(&vec![b'a', 9, b' ']), Some("a\t ".to_owned()));
    assert_eq!(to_text(&vec![127]), None);
    assert_eq!(to_text(&vec![0xc3, 0xa9]), None);
}
