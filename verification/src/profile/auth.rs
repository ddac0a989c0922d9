//! Trust boundary for the internal hop.
//!
//! The profile service never sees a bearer token and never validates one. It
//! trusts exactly two headers, and only in this order: a shared secret proving
//! the caller is the gateway, then the user id the gateway derived from a token
//! it already verified. [`gateway_guard`] makes both checks, so no handler can
//! skip the first and still read the second.

use crate::common::headers::{INTERNAL_TOKEN, USER_ID};
use crate::common::http::{
    find_header, find_text, header_text, header_value, headers_view, law_visible_values_are_text,
    Header, HeaderView,
};
use crate::common::user_id::UserId;
use crate::profile::error::ProfileError;
use crate::profile::tracing_id::inbound;
use vstd::prelude::*;
use vstd::utf8::encode_utf8;

verus! {

/// The authenticated user, as asserted by the gateway.
///
/// Only meaningful because the internal token is checked first; on its own this
/// header is client-controlled and worthless.
#[derive(Debug, PartialEq, Eq)]
pub struct Caller(pub UserId);

/// The user that the gateway asserts, if it asserts one.
pub open spec fn asserted_user(headers: Seq<HeaderView>) -> Option<Seq<char>> {
    match header_text(headers, USER_ID@) {
        Some(id) => if id.len() > 0 {
            Some(id)
        } else {
            None
        },
        None => None,
    }
}

impl Caller {
    /// Reads the caller out of a request's headers.
    pub fn from_headers(headers: &Vec<Header>) -> (r: Result<Caller, ProfileError>)
        ensures
            match r {
                Ok(caller) => asserted_user(headers_view(headers@)) == Some(caller.0@),
                Err(error) => error is MissingCaller && asserted_user(headers_view(headers@)) is None,
            },
    {
        match find_text(headers, USER_ID) {
            Some(id) => {
                if id.as_str().is_empty() {
                    Err(ProfileError::MissingCaller)
                } else {
                    Ok(Caller(UserId::from(id.as_str())))
                }
            },
            None => Err(ProfileError::MissingCaller),
        }
    }
}

/// Calls `subtle::ConstantTimeEq::ct_eq` on two byte slices, which says whether
/// they hold the same bytes.
///
/// A byte-by-byte `==` short-circuits on the first mismatch, which leaks the
/// secret one character at a time to anyone who can measure response latency
/// across enough requests.
#[verifier::external_body]
fn constant_time_eq(a: &[u8], b: &[u8]) -> (r: bool)
    ensures
        r == (a@ == b@),
{
    subtle::ConstantTimeEq::ct_eq(a, b).into()
}

/// Whether a request presents the internal token; one without the header does
/// not, whatever the token is.
pub open spec fn is_internal(headers: Seq<HeaderView>, internal_token: Seq<char>) -> bool {
    match header_value(headers, INTERNAL_TOKEN@) {
        Some(presented) => presented == encode_utf8(internal_token),
        None => false,
    }
}

/// Establishes correlation, then rejects anything that is not the gateway: the
/// request id that the gateway attached, and whether the request may go on.
///
/// Correlation is established *before* the token check, so a rejected request
/// still appears in the logs under the id the caller quoted.
pub fn gateway_guard(headers: &Vec<Header>, internal_token: &str) -> (r: (
    Option<Vec<u8>>,
    Result<(), ProfileError>,
))
    ensures
        match r.0 {
            Some(id) => crate::profile::tracing_id::correlation(headers_view(headers@)) == Some(
                id@,
            ),
            None => crate::profile::tracing_id::correlation(headers_view(headers@)) is None,
        },
        match r.1 {
            Ok(()) => is_internal(headers_view(headers@), internal_token@),
            Err(error) => error is NotInternal && !is_internal(
                headers_view(headers@),
                internal_token@,
            ),
        },
{
    let correlation = inbound(headers);
    let internal = match find_header(headers, INTERNAL_TOKEN) {
        Some(value) => constant_time_eq(value.as_slice(), internal_token.as_bytes()),
        None => false,
    };
    if internal {
        (correlation, Ok(()))
    } else {
        (correlation, Err(ProfileError::NotInternal))
    }
}

/// The gateway is known by the token alone: a request is internal exactly where
/// its first `X-Internal-Token` header holds the bytes of the token, however many
/// they are.
pub proof fn law_the_token_alone_makes_a_request_internal(
    headers: Seq<HeaderView>,
    internal_token: Seq<char>,
    value: Seq<u8>,
)
    ensures
        header_value(headers, "x-internal-token"@) is None ==> !is_internal(
            headers,
            internal_token,
        ),
        header_value(headers, "x-internal-token"@) == Some(value) ==> (is_internal(
            headers,
            internal_token,
        ) <==> value == encode_utf8(internal_token)),
{
}

/// The caller is whoever the first `X-User-Id` header names: its text, character
/// by byte, where that is visible ASCII and not empty, and nobody otherwise.
pub proof fn law_the_caller_is_whom_the_header_names(headers: Seq<HeaderView>, value: Seq<u8>)
    ensures
        header_value(headers, "x-user-id"@) is None ==> asserted_user(headers) is None,
        header_value(headers, "x-user-id"@) == Some(value) ==> (asserted_user(headers) is Some <==> {
            &&& value.len() > 0
            &&& forall|i: int|
                0 <= i < value.len() ==> #[trigger] value[i] == 9 || 32 <= value[i] <= 126
        }),
        header_value(headers, "x-user-id"@) == Some(value) && asserted_user(headers) is Some
            ==> asserted_user(headers)->0.len() == value.len() && (forall|i: int|
            0 <= i < value.len() ==> #[trigger] asserted_user(headers)->0[i] as int
                == value[i] as int),
{
    law_visible_values_are_text(value);
}

} // verus!
