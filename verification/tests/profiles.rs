//! The profile handlers, over the in-memory store.

use knova::common::dto::{InvalidProfile, ProfileInput};
use knova::common::http::{Header, Reply};
use knova::common::{UserId, Version};
use knova::profile::idempotency::Recorded;
use knova::profile::routes::{create, health, history, parse_if_match, read, replay, update};
use knova::profile::{IdempotencyStore, InMemoryProfiles, ProfileError, StoreError};

struct Service {
    profiles: InMemoryProfiles,
    idempotency: IdempotencyStore,
    user: UserId,
}

fn service() -> Service {
    Service {
        profiles: InMemoryProfiles::new(),
        idempotency: IdempotencyStore::default(),
        user: UserId::from("user-under-test"),
    }
}

/// The payload that a body is the JSON of.
fn parse(body: &str) -> Option<ProfileInput> {
    let value: serde_json::Value = serde_json::from_str(body).ok()?;
    Some(ProfileInput {
        address: value.get("address")?.as_str()?.to_owned(),
        phone_number: value.get("phone_number")?.as_str()?.to_owned(),
    })
}

fn render(answer: Result<Reply, ProfileError>) -> Reply {
    answer.unwrap_or_else(|error| error.into_response())
}

impl Service {
    fn post(&mut self, key: Option<&str>, body: &str) -> Reply {
        let headers = key.map_or_else(Vec::new, |key| {
            vec![Header::with_text("idempotency-key", key)]
        });
        render(create(
            &mut self.profiles,
            &mut self.idempotency,
            &self.user,
            &headers,
            body,
            parse(body),
        ))
    }

    fn put(&mut self, if_match: Option<&str>, body: &str) -> Reply {
        let headers = if_match.map_or_else(Vec::new, |version| {
            vec![Header::with_text("if-match", version)]
        });
        let input = parse(body).expect("body is a profile");
        render(update(&mut self.profiles, &self.user, &headers, input))
    }

    fn get(&self) -> Reply {
        render(read(&self.profiles, &self.user))
    }

    fn audit(&self) -> Reply {
        render(history(&self.profiles, &self.user))
    }
}

/// Both fields carry the same marker, in forms that pass validation.
fn body_for(marker: usize) -> String {
    format!(r#"{{"address":"address-{marker}","phone_number":"555{marker:04}"}}"#)
}

/// Reads the version out of an `ETag` response header.
fn version_of(reply: &Reply) -> Version {
    reply
        .headers
        .iter()
        .find(|(name, _)| name == "etag")
        .map(|(_, value)| value.parse().expect("ETag holds a version"))
        .expect("every 2xx and 412 carries an ETag")
}

#[test]
fn stale_update_is_rejected() {
    let mut app = service();

    let created = app.post(None, &body_for(0));
    assert_eq!(created.status, 201);

    // Both clients read the same version, as two browser tabs would.
    let observed = version_of(&created);
    let quoted = observed.to_string();

    // First writer wins.
    let first = app.put(Some(&quoted), &body_for(1));
    assert_eq!(first.status, 200);
    assert_eq!(
        version_of(&first),
        observed.checked_next().expect("no overflow")
    );

    // Second writer is holding a version that is now stale. Without the
    // precondition this would return 200 and erase writer one's change, with
    // neither client ever learning that anything was lost.
    let second = app.put(Some(&quoted), &body_for(2));
    assert_eq!(
        second.status, 412,
        "a write against a stale version must be refused, not silently applied"
    );
    assert_eq!(
        version_of(&second),
        observed.checked_next().expect("no overflow"),
        "the 412 must report the current version so the client can retry without a re-read"
    );

    // The winner's data survived intact.
    let body = app.get().body;
    assert!(
        body.contains("address-1"),
        "writer one's update was lost: {body}"
    );
    assert!(
        !body.contains("address-2"),
        "the stale write was applied anyway: {body}"
    );
}

#[test]
fn unconditional_update_is_refused() {
    let mut app = service();
    app.post(None, &body_for(0));

    let refused = app.put(None, &body_for(1));
    assert_eq!(
        refused.status, 428,
        "a PUT with no If-Match cannot express which version it intends to replace, \
         so it must be refused rather than treated as last-write-wins"
    );
}

#[test]
fn the_status_codes_are_the_contract() {
    let mut app = service();
    assert_eq!(app.get().status, 404);
    assert_eq!(app.audit().status, 404);
    assert_eq!(app.put(Some("\"1\""), &body_for(0)).status, 404);

    let created = app.post(None, &body_for(0));
    assert_eq!(created.status, 201);
    assert_eq!(
        created.headers,
        vec![
            ("content-type".to_owned(), "application/json".to_owned()),
            ("etag".to_owned(), "\"1\"".to_owned()),
        ]
    );
    let stored = concat_profile("address-0", "5550000", 1);
    assert_eq!(created.body, stored);
    assert_eq!(app.get().body, stored);
    assert_eq!(app.post(None, &body_for(1)).status, 409);
    assert_eq!(app.put(Some("*"), &body_for(1)).status, 400);
    assert_eq!(app.put(Some("é"), &body_for(1)).status, 400);

    let updated = app.put(Some("1"), &body_for(1));
    assert_eq!(updated.status, 200);
    assert_eq!(updated.body, concat_profile("address-1", "5550001", 2));

    let audit = app.audit();
    assert_eq!(audit.status, 200);
    let revisions: serde_json::Value = serde_json::from_str(&audit.body).expect("JSON");
    assert_eq!(revisions.as_array().map(Vec::len), Some(2));
    assert_eq!(revisions[0]["version"].as_u64(), Some(1));
    assert_eq!(revisions[0]["address"].as_str(), Some("address-0"));
    assert_eq!(revisions[1]["version"].as_u64(), Some(2));
    assert_eq!(revisions[1]["phone_number"].as_str(), Some("5550001"));
}

fn concat_profile(address: &str, phone: &str, version: u64) -> String {
    format!(
        r#"{{"user_id":"user-under-test","address":"{address}","phone_number":"{phone}","version":{version}}}"#
    )
}

#[test]
fn the_precondition_is_read_before_the_payload() {
    let mut app = service();
    app.post(None, &body_for(0));
    let flawed = r#"{"address":" ","phone_number":"5550100"}"#;
    assert_eq!(app.put(None, flawed).status, 428);
    assert_eq!(app.put(Some("*"), flawed).status, 400);
    for quoted in ["1", "7"] {
        let refused = app.put(Some(quoted), flawed);
        assert_eq!(refused.status, 422);
        assert_eq!(
            refused.body,
            r#"{"error":"invalid_profile","message":"address must not be empty"}"#
        );
    }
    assert_eq!(app.put(Some("18446744073709551615"), &body_for(1)).status, 412);
    assert_eq!(service().post(None, flawed).status, 422);
    assert_eq!(service().post(None, "not JSON").status, 400);
}

#[test]
fn a_retried_create_gets_the_original_response() {
    let mut app = service();
    let first = app.post(Some("key-1"), &body_for(0));
    assert_eq!(first.status, 201);
    let retried = app.post(Some("key-1"), &body_for(0));
    assert_eq!(retried, first);
    assert_eq!(app.post(Some("key-1"), &body_for(1)).status, 422);
    assert_eq!(app.post(Some("key-2"), &body_for(0)).status, 409);
    assert_eq!(app.post(Some(""), &body_for(0)).status, 409);
    let revisions: serde_json::Value = serde_json::from_str(&app.audit().body).expect("JSON");
    assert_eq!(revisions.as_array().map(Vec::len), Some(1));
}

#[test]
fn a_failed_create_releases_its_key() {
    let mut app = service();
    assert_eq!(app.post(Some("key-1"), "not JSON").status, 400);
    assert_eq!(app.post(Some("key-1"), &body_for(0)).status, 201);
}

#[test]
fn a_key_in_flight_is_refused_with_its_own_code() {
    let mut app = service();
    let body = body_for(0);
    let _ = app.idempotency.begin("user-under-test", "key-1", &body);
    let refused = app.post(Some("key-1"), &body);
    assert_eq!(refused.status, 409);
    assert!(refused.body.contains("idempotency_in_flight"));
    assert_eq!(app.get().status, 404, "nothing was run");
}

#[test]
fn interleaved_writes_are_never_torn() {
    let mut app = service();
    app.post(None, &body_for(0));
    for marker in 1..=64 {
        let version = version_of(&app.get()).to_string();
        assert_eq!(app.put(Some(&version), &body_for(marker)).status, 200);
        let loser = app.put(Some(&version), &body_for(marker + 1000));
        assert_eq!(loser.status, 412);
        let profile: serde_json::Value = serde_json::from_str(&app.get().body).expect("JSON");
        assert_eq!(profile["address"].as_str(), Some(format!("address-{marker}").as_str()));
        assert_eq!(
            profile["phone_number"].as_str(),
            Some(format!("555{marker:04}").as_str())
        );
    }
    assert_eq!(version_of(&app.get()), Version::from_counter(65));
}

#[test]
fn preconditions_are_read_from_the_header() {
    let read = |value: &str| parse_if_match(&vec![Header::with_text("if-match", value)]);
    assert!(matches!(read(" \"3\" "), Ok(version) if version.get() == 3));
    assert!(matches!(read("W/\"3\""), Err(ProfileError::MalformedPrecondition)));
    assert!(matches!(
        parse_if_match(&Vec::new()),
        Err(ProfileError::PreconditionRequired)
    ));
}

#[test]
fn recorded_outcomes_are_rendered_as_they_are() {
    let recorded = |status: u16, etag: Option<&str>| Recorded {
        status,
        body: "{}".to_owned(),
        etag: etag.map(str::to_owned),
    };
    assert_eq!(replay(&recorded(202, None)).status, 202);
    assert_eq!(replay(&recorded(202, None)).headers.len(), 1);
    assert_eq!(replay(&recorded(99, None)).status, 201);
    assert_eq!(replay(&recorded(1000, None)).status, 201);
    assert_eq!(replay(&recorded(201, Some("\"1\""))).headers.len(), 2);
    let broken = replay(&recorded(201, Some("line\nbreak")));
    assert_eq!((broken.status, broken.body.as_str()), (500, ""));
}

#[test]
fn every_profile_error_has_its_place_on_the_wire() {
    let cases = [
        (ProfileError::NotInternal, 403, "forbidden", "caller is not the gateway"),
        (
            ProfileError::MissingCaller,
            500,
            "internal_error",
            "internal request carried no user id",
        ),
        (ProfileError::NotFound, 404, "not_found", "profile not found"),
        (
            ProfileError::AlreadyExists,
            409,
            "already_exists",
            "profile already exists",
        ),
        (
            ProfileError::PreconditionRequired,
            428,
            "precondition_required",
            "If-Match is required",
        ),
        (
            ProfileError::PreconditionFailed {
                current_version: Version::from_counter(7),
            },
            412,
            "precondition_failed",
            "If-Match version is stale",
        ),
        (
            ProfileError::MalformedPrecondition,
            400,
            "malformed_precondition",
            "If-Match is malformed",
        ),
        (
            ProfileError::MalformedBody,
            400,
            "malformed_body",
            "request body is not valid JSON for this endpoint",
        ),
        (
            ProfileError::IdempotencyInFlight,
            409,
            "idempotency_in_flight",
            "a request with this idempotency key is in progress",
        ),
        (
            ProfileError::IdempotencyReused,
            422,
            "idempotency_key_reused",
            "idempotency key reused with a different request body",
        ),
        (
            ProfileError::Invalid(InvalidProfile::EmptyPhone),
            422,
            "invalid_profile",
            "phone number must not be empty",
        ),
        (
            ProfileError::Store(StoreError::Backend("disk".to_owned())),
            500,
            "internal_error",
            "storage fault",
        ),
    ];
    for (error, status, code, text) in cases {
        let (got, error_code, message) = error.parts();
        assert_eq!((got, error_code), (status, code));
        assert_eq!(error.to_string(), text);
        let reply = error.into_response();
        assert_eq!(reply.status, status);
        let body: serde_json::Value = serde_json::from_str(&reply.body).expect("JSON");
        assert_eq!(body["error"].as_str(), Some(code));
        assert_eq!(body["message"].as_str(), Some(message.as_str()));
        assert!(!reply.body.contains("disk"));
        assert_eq!(reply.headers.len(), if status == 412 { 2 } else { 1 });
    }
}

#[test]
fn the_profile_probe_is_ok() {
    assert_eq!(health().body, r#"{"status":"ok"}"#);
}
