//! The service-wide error type and its single HTTP mapping.

use crate::common::dto::{error_json, ErrorResponse};
use crate::common::http::{json_reply, Reply, ReplyView};
use vstd::prelude::*;

verus! {

/// Why a token could not be signed. Opaque: it is carried to the log.
#[verifier::external_type_specification]
#[verifier::external_body]
pub struct ExSigningError(jsonwebtoken::errors::Error);

/// Anything a handler can fail with.
#[derive(Debug)]
pub enum AppError {
    /// The username was unknown, or the password was wrong. Deliberately one
    /// variant: see [`Authentication`](crate::auth::users::Authentication).
    InvalidCredentials,
    /// No usable `Authorization: Bearer` header was present.
    MissingBearer,
    /// A bearer token was present but did not validate.
    InvalidToken,
    /// Claims could not be serialized or signed.
    TokenSigning(jsonwebtoken::errors::Error),
    /// The wall clock reads before the Unix epoch, or too late to count a
    /// token's lifetime from.
    Clock,
    /// A password verification did not run to its end, for the reason given.
    BlockingTask(String),
    /// The profile service could not be reached, or its response was
    /// unreadable, for the reason given.
    Upstream(String),
    /// Every password-verification permit is in use.
    Overloaded,
    /// The calling address has failed too many logins recently.
    ///
    /// Safe to report honestly: it depends on the caller's address, not on
    /// whether any account exists.
    AddressThrottled,
}

impl AppError {
    /// The status that the error maps to.
    pub open spec fn status(self) -> u16 {
        match self {
            AppError::InvalidCredentials => 401,
            AppError::MissingBearer => 401,
            AppError::InvalidToken => 401,
            AppError::AddressThrottled => 429,
            AppError::Overloaded => 503,
            AppError::Upstream(_) => 502,
            AppError::TokenSigning(_) => 500,
            AppError::Clock => 500,
            AppError::BlockingTask(_) => 500,
        }
    }

    /// The machine-readable code that the error maps to.
    pub open spec fn code(self) -> Seq<char> {
        match self {
            AppError::InvalidCredentials => "invalid_credentials"@,
            AppError::MissingBearer => "unauthorized"@,
            AppError::InvalidToken => "unauthorized"@,
            AppError::AddressThrottled => "too_many_requests"@,
            AppError::Overloaded => "overloaded"@,
            AppError::Upstream(_) => "upstream_unavailable"@,
            AppError::TokenSigning(_) => "internal_error"@,
            AppError::Clock => "internal_error"@,
            AppError::BlockingTask(_) => "internal_error"@,
        }
    }

    /// The client-safe message that the error maps to.
    pub open spec fn message(self) -> Seq<char> {
        match self {
            AppError::InvalidCredentials => "Invalid username or password."@,
            AppError::MissingBearer => "A valid bearer token is required."@,
            AppError::InvalidToken => "A valid bearer token is required."@,
            AppError::AddressThrottled =>
                "Too many failed attempts from this address. Retry later."@,
            AppError::Overloaded => "The service is at capacity. Retry shortly."@,
            AppError::Upstream(_) => "The profile service is unavailable."@,
            AppError::TokenSigning(_) => "An unexpected error occurred."@,
            AppError::Clock => "An unexpected error occurred."@,
            AppError::BlockingTask(_) => "An unexpected error occurred."@,
        }
    }

    /// Maps the error to `(status, machine-readable code, client-safe message)`.
    ///
    /// The only place that decides how an error appears on the wire, which is
    /// what makes the indistinguishability of the two credential failures
    /// auditable by reading a single function.
    pub fn parts(&self) -> (r: (u16, &'static str, &'static str))
        ensures
            r.0 == self.status(),
            r.1@ == self.code(),
            r.2@ == self.message(),
    {
        match self {
            AppError::InvalidCredentials => (
                401,
                "invalid_credentials",
                "Invalid username or password.",
            ),
            AppError::MissingBearer | AppError::InvalidToken => (
                401,
                "unauthorized",
                "A valid bearer token is required.",
            ),
            AppError::AddressThrottled => (
                429,
                "too_many_requests",
                "Too many failed attempts from this address. Retry later.",
            ),
            AppError::Overloaded => (
                503,
                "overloaded",
                "The service is at capacity. Retry shortly.",
            ),
            AppError::Upstream(_) => (
                502,
                "upstream_unavailable",
                "The profile service is unavailable.",
            ),
            AppError::TokenSigning(_) | AppError::Clock | AppError::BlockingTask(_) => (
                500,
                "internal_error",
                "An unexpected error occurred.",
            ),
        }
    }

    /// How many seconds a client should wait, where waiting helps.
    pub open spec fn retry_after(self) -> Option<Seq<char>> {
        match self {
            AppError::Overloaded => Some("1"@),
            AppError::AddressThrottled => Some("300"@),
            _ => None,
        }
    }

    /// The response that the error is reported with.
    pub open spec fn reply(self) -> ReplyView {
        json_reply(
            self.status(),
            match self.retry_after() {
                Some(seconds) => Some(("retry-after"@, seconds)),
                None => None,
            },
            error_json(self.code(), self.message()),
        )
    }

    /// Renders the error as a response. Retryable failures say when; the rest
    /// make the client guess.
    pub fn into_response(&self) -> (r: Reply)
        ensures
            r@ == self.reply(),
    {
        let (status, error, message) = self.parts();
        let body = ErrorResponse::new(error, message).to_json();
        match self {
            AppError::Overloaded => Reply::json_with(status, "retry-after", "1", body),
            AppError::AddressThrottled => Reply::json_with(status, "retry-after", "300", body),
            _ => Reply::json(status, body),
        }
    }

    /// What to write in the log.
    pub open spec fn text(self) -> Seq<char> {
        match self {
            AppError::InvalidCredentials => "invalid credentials"@,
            AppError::MissingBearer => "missing bearer token"@,
            AppError::InvalidToken => "invalid token"@,
            AppError::TokenSigning(_) => "token signing failed"@,
            AppError::Clock => "wall clock is out of range"@,
            AppError::BlockingTask(_) => "blocking task failed"@,
            AppError::Upstream(_) => "upstream request failed"@,
            AppError::Overloaded => "password verification capacity exhausted"@,
            AppError::AddressThrottled => "too many failed logins from this address"@,
        }
    }

    /// What to write in the log.
    pub fn to_string(&self) -> (r: String)
        ensures
            r@ == self.text(),
    {
        match self {
            AppError::InvalidCredentials => "invalid credentials".to_owned(),
            AppError::MissingBearer => "missing bearer token".to_owned(),
            AppError::InvalidToken => "invalid token".to_owned(),
            AppError::TokenSigning(_) => "token signing failed".to_owned(),
            AppError::Clock => "wall clock is out of range".to_owned(),
            AppError::BlockingTask(_) => "blocking task failed".to_owned(),
            AppError::Upstream(_) => "upstream request failed".to_owned(),
            AppError::Overloaded => "password verification capacity exhausted".to_owned(),
            AppError::AddressThrottled => "too many failed logins from this address".to_owned(),
        }
    }
}

/// A client is never told why a token is unusable, nor whether there was one.
pub proof fn law_unusable_tokens_are_told_alike()
    ensures
        AppError::MissingBearer.reply() == AppError::InvalidToken.reply(),
{
}

/// A client is never told which fault it ran into, nor its cause.
pub proof fn law_faults_are_told_alike(
    reason: String,
    other: String,
    signing: jsonwebtoken::errors::Error,
)
    ensures
        AppError::BlockingTask(reason).reply() == AppError::Clock.reply(),
        AppError::TokenSigning(signing).reply() == AppError::Clock.reply(),
        AppError::Upstream(reason).reply() == AppError::Upstream(other).reply(),
{
}

/// Only a client that may come again is told when, in whole seconds.
pub proof fn law_only_retryable_failures_say_when(error: AppError)
    ensures
        error is Overloaded ==> error.reply().headers == seq![
            ("content-type"@, "application/json"@),
            ("retry-after"@, seq!['1']),
        ],
        error is AddressThrottled ==> error.reply().headers == seq![
            ("content-type"@, "application/json"@),
            ("retry-after"@, seq!['3', '0', '0']),
        ],
        !(error is Overloaded || error is AddressThrottled) ==> error.reply().headers == seq![
            ("content-type"@, "application/json"@),
        ],
{
    reveal_strlit("1");
    reveal_strlit("300");
    assert("1"@ =~= seq!['1']);
    assert("300"@ =~= seq!['3', '0', '0']);
}

/// Whose fault an error is, in its status: who cannot be authenticated, whatever
/// the reason, gets `401`, and what a client cannot mend is in the five hundreds.
pub proof fn law_faults_and_refusals_are_told_apart(error: AppError)
    ensures
        error is InvalidCredentials || error is MissingBearer || error is InvalidToken
            <==> error.status() == 401,
        error is AddressThrottled <==> error.status() == 429,
        error is Overloaded <==> error.status() == 503,
        error is Upstream <==> error.status() == 502,
        error is TokenSigning || error is Clock || error is BlockingTask <==> error.status() == 500,
        error.reply().status == error.status(),
        error.reply().body == error_json(error.code(), error.message()),
{
}

} // verus!
