//! The service-wide error type and its single HTTP mapping.

use crate::common::dto::{error_json, ErrorResponse, InvalidProfile};
use crate::common::http::{json_reply, Reply, ReplyView};
use crate::common::version::{tag, Version};
use crate::profile::store::StoreError;
use vstd::prelude::*;

verus! {

/// Anything a handler can fail with.
#[derive(Debug)]
pub enum ProfileError {
    /// The internal token was absent or wrong: the caller is not the gateway.
    NotInternal,
    /// The gateway forwarded a request with no user id header. This is a bug in
    /// the gateway, never something a client can cause, so it is a `500`.
    MissingCaller,
    /// No profile exists for the calling user.
    NotFound,
    /// A profile already exists and `POST` will not overwrite it.
    AlreadyExists,
    /// `PUT` arrived without an `If-Match` header.
    PreconditionRequired,
    /// The `If-Match` version did not match the stored one.
    PreconditionFailed {
        /// The version actually stored, returned so the client can retry.
        current_version: Version,
    },
    /// An `If-Match` header was present but not a valid version.
    MalformedPrecondition,
    /// The request body was not the JSON this endpoint expects.
    MalformedBody,
    /// Another request is currently holding this idempotency key.
    IdempotencyInFlight,
    /// This idempotency key was used before with a different body.
    IdempotencyReused,
    /// The payload failed the invariants on a profile.
    Invalid(InvalidProfile),
    /// The storage backend failed.
    Store(StoreError),
}

impl ProfileError {
    /// The status that the error maps to.
    pub open spec fn status(self) -> u16 {
        match self {
            ProfileError::NotInternal => 403,
            ProfileError::NotFound => 404,
            ProfileError::AlreadyExists => 409,
            ProfileError::PreconditionRequired => 428,
            ProfileError::PreconditionFailed { .. } => 412,
            ProfileError::MalformedPrecondition => 400,
            ProfileError::MalformedBody => 400,
            ProfileError::IdempotencyInFlight => 409,
            ProfileError::IdempotencyReused => 422,
            ProfileError::Invalid(_) => 422,
            ProfileError::MissingCaller => 500,
            ProfileError::Store(_) => 500,
        }
    }

    /// The machine-readable code that the error maps to.
    pub open spec fn code(self) -> Seq<char> {
        match self {
            ProfileError::NotInternal => "forbidden"@,
            ProfileError::NotFound => "not_found"@,
            ProfileError::AlreadyExists => "already_exists"@,
            ProfileError::PreconditionRequired => "precondition_required"@,
            ProfileError::PreconditionFailed { .. } => "precondition_failed"@,
            ProfileError::MalformedPrecondition => "malformed_precondition"@,
            ProfileError::MalformedBody => "malformed_body"@,
            ProfileError::IdempotencyInFlight => "idempotency_in_flight"@,
            ProfileError::IdempotencyReused => "idempotency_key_reused"@,
            ProfileError::Invalid(_) => "invalid_profile"@,
            ProfileError::MissingCaller => "internal_error"@,
            ProfileError::Store(_) => "internal_error"@,
        }
    }

    /// The client-safe message that the error maps to.
    pub open spec fn message(self) -> Seq<char> {
        match self {
            ProfileError::NotInternal => "This service is not directly reachable."@,
            ProfileError::NotFound => "No profile exists for this user."@,
            ProfileError::AlreadyExists => "A profile already exists; use PUT to update it."@,
            ProfileError::PreconditionRequired =>
                "If-Match is required. Read the profile and retry with its ETag."@,
            ProfileError::PreconditionFailed { .. } =>
                "The profile changed since you read it. Re-read and retry."@,
            ProfileError::MalformedPrecondition => "If-Match must be an ETag such as \"3\"."@,
            ProfileError::MalformedBody => "The request body must be a JSON profile."@,
            ProfileError::IdempotencyInFlight =>
                "An earlier request with this Idempotency-Key is still running. Retry shortly."@,
            ProfileError::IdempotencyReused =>
                "This Idempotency-Key was already used with a different request body."@,
            ProfileError::Invalid(reason) => reason.message(),
            ProfileError::MissingCaller => "An unexpected error occurred."@,
            ProfileError::Store(_) => "An unexpected error occurred."@,
        }
    }

    /// Maps the error to `(status, machine-readable code, client-safe message)`.
    pub fn parts(&self) -> (r: (u16, &'static str, String))
        ensures
            r.0 == self.status(),
            r.1@ == self.code(),
            r.2@ == self.message(),
    {
        match self {
            ProfileError::NotInternal => (
                403,
                "forbidden",
                "This service is not directly reachable.".to_owned(),
            ),
            ProfileError::NotFound => (
                404,
                "not_found",
                "No profile exists for this user.".to_owned(),
            ),
            ProfileError::AlreadyExists => (
                409,
                "already_exists",
                "A profile already exists; use PUT to update it.".to_owned(),
            ),
            ProfileError::PreconditionRequired => (
                428,
                "precondition_required",
                "If-Match is required. Read the profile and retry with its ETag.".to_owned(),
            ),
            ProfileError::PreconditionFailed { .. } => (
                412,
                "precondition_failed",
                "The profile changed since you read it. Re-read and retry.".to_owned(),
            ),
            ProfileError::MalformedPrecondition => (
                400,
                "malformed_precondition",
                "If-Match must be an ETag such as \"3\".".to_owned(),
            ),
            ProfileError::MalformedBody => (
                400,
                "malformed_body",
                "The request body must be a JSON profile.".to_owned(),
            ),
            ProfileError::IdempotencyInFlight => (
                409,
                "idempotency_in_flight",
                "An earlier request with this Idempotency-Key is still running. Retry shortly.".to_owned(),
            ),
            ProfileError::IdempotencyReused => (
                422,
                "idempotency_key_reused",
                "This Idempotency-Key was already used with a different request body.".to_owned(),
            ),
            // The only variant whose message is not fixed: it names the field
            // the caller got wrong, which is information the caller supplied.
            ProfileError::Invalid(reason) => (422, "invalid_profile", reason.to_string()),
            ProfileError::MissingCaller | ProfileError::Store(_) => (
                500,
                "internal_error",
                "An unexpected error occurred.".to_owned(),
            ),
        }
    }

    /// The response that the error is reported with.
    pub open spec fn reply(self) -> ReplyView {
        json_reply(
            self.status(),
            match self {
                ProfileError::PreconditionFailed { current_version } => Some(
                    ("etag"@, tag(current_version.0)),
                ),
                _ => None,
            },
            error_json(self.code(), self.message()),
        )
    }

    /// Renders the error as a response. A `412` carries the current `ETag`, so
    /// a client can retry without a separate round-trip to discover the version
    /// it lost to.
    pub fn into_response(&self) -> (r: Reply)
        ensures
            r@ == self.reply(),
    {
        let (status, error, message) = self.parts();
        let body = ErrorResponse::new(error, message.as_str()).to_json();
        match self {
            ProfileError::PreconditionFailed { current_version } => Reply::json_with(
                status,
                "etag",
                current_version.to_string().as_str(),
                body,
            ),
            _ => Reply::json(status, body),
        }
    }

    /// What to write in the log.
    pub open spec fn text(self) -> Seq<char> {
        match self {
            ProfileError::NotInternal => "caller is not the gateway"@,
            ProfileError::MissingCaller => "internal request carried no user id"@,
            ProfileError::NotFound => "profile not found"@,
            ProfileError::AlreadyExists => "profile already exists"@,
            ProfileError::PreconditionRequired => "If-Match is required"@,
            ProfileError::PreconditionFailed { .. } => "If-Match version is stale"@,
            ProfileError::MalformedPrecondition => "If-Match is malformed"@,
            ProfileError::MalformedBody => "request body is not valid JSON for this endpoint"@,
            ProfileError::IdempotencyInFlight =>
                "a request with this idempotency key is in progress"@,
            ProfileError::IdempotencyReused =>
                "idempotency key reused with a different request body"@,
            ProfileError::Invalid(reason) => reason.message(),
            ProfileError::Store(_) => "storage fault"@,
        }
    }

    /// What to write in the log.
    pub fn to_string(&self) -> (r: String)
        ensures
            r@ == self.text(),
    {
        match self {
            ProfileError::NotInternal => "caller is not the gateway".to_owned(),
            ProfileError::MissingCaller => "internal request carried no user id".to_owned(),
            ProfileError::NotFound => "profile not found".to_owned(),
            ProfileError::AlreadyExists => "profile already exists".to_owned(),
            ProfileError::PreconditionRequired => "If-Match is required".to_owned(),
            ProfileError::PreconditionFailed { .. } => "If-Match version is stale".to_owned(),
            ProfileError::MalformedPrecondition => "If-Match is malformed".to_owned(),
            ProfileError::MalformedBody => "request body is not valid JSON for this endpoint".to_owned(),
            ProfileError::IdempotencyInFlight => "a request with this idempotency key is in progress".to_owned(),
            ProfileError::IdempotencyReused => "idempotency key reused with a different request body".to_owned(),
            ProfileError::Invalid(reason) => reason.to_string(),
            ProfileError::Store(_) => "storage fault".to_owned(),
        }
    }
}

/// A storage fault, whatever its cause, is told to the client in the same words
/// as a request that carried no user.
pub proof fn law_faults_are_told_alike(fault: StoreError, other: StoreError)
    ensures
        ProfileError::Store(fault).reply() == ProfileError::Store(other).reply(),
        ProfileError::Store(fault).reply() == ProfileError::MissingCaller.reply(),
{
}

/// Only a stale write is told a version: the one that won, under the tag that a
/// retry has to quote.
pub proof fn law_a_stale_write_is_told_the_winner(winner: Version, other: ProfileError)
    ensures
        (ProfileError::PreconditionFailed { current_version: winner }).reply().status == 412,
        (ProfileError::PreconditionFailed { current_version: winner }).reply().headers == seq![
            ("content-type"@, "application/json"@),
            ("etag"@, tag(winner.0)),
        ],
        !(other is PreconditionFailed) ==> other.reply().headers == seq![
            ("content-type"@, "application/json"@),
        ],
{
}

/// Whose fault an error is, in its status: what the client can mend is in the
/// four hundreds, and what it cannot is a `500`.
pub proof fn law_faults_and_refusals_are_told_apart(error: ProfileError)
    ensures
        error is Store || error is MissingCaller <==> error.status() == 500,
        !(error is Store || error is MissingCaller) <==> 400 <= error.status() < 500,
        error.reply().status == error.status(),
        error.reply().body == error_json(error.code(), error.message()),
        error is NotInternal <==> error.status() == 403,
        error is NotFound <==> error.status() == 404,
        error is PreconditionRequired <==> error.status() == 428,
        error is PreconditionFailed <==> error.status() == 412,
        error is AlreadyExists || error is IdempotencyInFlight <==> error.status() == 409,
        error is Invalid || error is IdempotencyReused <==> error.status() == 422,
        error is MalformedBody || error is MalformedPrecondition <==> error.status() == 400,
        error matches ProfileError::Invalid(reason) ==> error.message() == reason.message(),
{
}

/// What a client is told to do about each refusal that it can mend.
pub proof fn law_refusals_say_what_to_do(error: ProfileError)
    ensures
        error is NotInternal ==> error.message() == "This service is not directly reachable."@,
        error is NotFound ==> error.message() == "No profile exists for this user."@,
        error is AlreadyExists ==> error.message()
            == "A profile already exists; use PUT to update it."@,
        error is PreconditionFailed ==> error.message()
            == "The profile changed since you read it. Re-read and retry."@,
        error is MalformedPrecondition ==> error.message()
            == "If-Match must be an ETag such as \"3\"."@,
        error is MalformedBody ==> error.message() == "The request body must be a JSON profile."@,
        error is IdempotencyInFlight ==> error.message()
            == "An earlier request with this Idempotency-Key is still running. Retry shortly."@,
        error is IdempotencyReused ==> error.message()
            == "This Idempotency-Key was already used with a different request body."@,
{
}

} // verus!
