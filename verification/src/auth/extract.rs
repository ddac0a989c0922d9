//! What a handler takes from a request before it runs.

use crate::auth::error::AppError;
use crate::auth::token::{is_expired, unexpired, Claims, TokenService, TokensView};
use crate::common::http::{find_text, header_text, headers_view, Header, HeaderView};
use crate::common::text::{
    law_split_at_the_first, law_split_gives_both_sides, same_ignoring_case,
    same_text_ignoring_case, split_at_first, split_once, trim, trimmed,
};
use crate::common::time::{epoch_secs, is_secs_reading, is_wall_reading, unix_now};
use vstd::prelude::*;

verus! {

/// A caller who presented a valid bearer token.
///
/// A handler that needs an authenticated user says so *in its signature*: a
/// route that forgets to authenticate has no claims to work with.
#[derive(Debug)]
pub struct Authenticated(pub Claims);

impl Clone for Authenticated {
    fn clone(&self) -> (r: Authenticated)
        ensures
            r.0@ == self.0@,
    {
        Authenticated(self.0.clone())
    }
}

/// The bearer token that a request presents, if it presents one: the scheme
/// counts whatever its case, and white space round the token is dropped.
pub open spec fn bearer(headers: Seq<HeaderView>) -> Option<Seq<char>> {
    match header_text(headers, "authorization"@) {
        Some(value) => match split_at_first(value, ' ') {
            Some((scheme, token)) => if same_ignoring_case(scheme, "bearer"@) {
                Some(trimmed(token))
            } else {
                None
            },
            None => None,
        },
        None => None,
    }
}

/// Reads the bearer token that a request presents.
///
/// RFC 9110 makes the auth scheme case-insensitive, so `bearer x` is as valid as
/// `Bearer x`. Matching the prefix as it is usually written would reject
/// conforming clients.
pub fn bearer_token(headers: &Vec<Header>) -> (r: Result<String, AppError>)
    ensures
        match bearer(headers_view(headers@)) {
            Some(token) => r matches Ok(presented) && presented@ == token,
            None => r == Err::<String, _>(AppError::MissingBearer),
        },
{
    match find_text(headers, "authorization") {
        Some(value) => match split_once(value.as_str(), ' ') {
            Some((scheme, token)) => {
                if same_text_ignoring_case(scheme.as_str(), "bearer") {
                    Ok(trim(token.as_str()))
                } else {
                    Err(AppError::MissingBearer)
                }
            },
            None => Err(AppError::MissingBearer),
        },
        None => Err(AppError::MissingBearer),
    }
}

/// What an authenticated caller's claims say.
pub open spec fn caller_view(answer: Result<Authenticated, AppError>) -> Result<Claims, AppError> {
    match answer {
        Ok(caller) => Ok(caller.0),
        Err(error) => Err(error),
    }
}

impl Authenticated {
    /// Authenticates a request at `now`: its bearer token must open at the token
    /// service, and be neither revoked nor expired by then.
    pub fn from_headers_at(headers: &Vec<Header>, tokens: &TokenService, now: u64) -> (r: Result<
        Authenticated,
        AppError,
    >)
        ensures
            match bearer(headers_view(headers@)) {
                Some(token) => tokens@.is_judged(
                    unexpired(tokens@.opened(token), now),
                    caller_view(r),
                ),
                None => r == Err::<Authenticated, _>(AppError::MissingBearer),
            },
    {
        match bearer_token(headers) {
            Ok(token) => match tokens.verify_at(token.as_str(), now) {
                Ok(claims) => Ok(Authenticated(claims)),
                Err(error) => Err(error),
            },
            Err(error) => Err(error),
        }
    }

    /// Authenticates a request: its bearer token must open at the token
    /// service, and be neither revoked nor expired. The clock is read once, and
    /// [`Authenticated::from_headers_at`] answers for its reading; while it is
    /// set before the Unix epoch no token is taken.
    pub fn from_headers(headers: &Vec<Header>, tokens: &TokenService) -> (r: Result<
        Authenticated,
        AppError,
    >)
        ensures
            match bearer(headers_view(headers@)) {
                Some(token) => exists|clock: Option<u64>|
                    is_secs_reading(clock) && tokens@.is_judged(
                        #[trigger] tokens@.presented(token, clock),
                        caller_view(r),
                    ),
                None => r == Err::<Authenticated, _>(AppError::MissingBearer),
            },
    {
        match unix_now() {
            Some(now) => {
                let r = Authenticated::from_headers_at(headers, tokens, now);
                assert(bearer(headers_view(headers@)) matches Some(token) ==> tokens@.is_judged(
                    tokens@.presented(token, Some(now)),
                    caller_view(r),
                ));
                r
            },
            None => {
                assert(bearer(headers_view(headers@)) matches Some(token)
                    ==> tokens@.presented(token, None) is None);
                match bearer_token(headers) {
                    Ok(_) => Err(AppError::InvalidToken),
                    Err(error) => Err(error),
                }
            },
        }
    }
}

/// The source address of the request, when one is known.
///
/// Deliberately *not* read from `X-Forwarded-For`. Behind a trusted proxy that
/// header is the real client and this one is the proxy, but trusting it
/// unconditionally lets any caller pick their own rate-limit bucket by
/// inventing a value. Honouring it is a deployment decision that belongs with
/// the proxy configuration that makes it safe.
#[derive(Debug, Clone, PartialEq, Eq)]
pub struct PeerAddress(pub Option<String>);

/// No request is let through without a bearer token that opens to claims that
/// are neither revoked nor expired.
pub proof fn law_only_bearers_are_let_through(
    headers: Seq<HeaderView>,
    tokens: TokensView,
    token: Seq<char>,
    clock: Option<u64>,
    answer: Result<Claims, AppError>,
)
    requires
        bearer(headers) == Some(token),
        tokens.is_judged(tokens.presented(token, clock), answer),
        answer is Ok,
    ensures
        tokens.opened(token) == Some(answer->Ok_0@),
        !tokens.revoked.contains_key(answer->Ok_0@.jti),
        clock matches Some(now) && !is_expired(answer->Ok_0@.exp, now),
{
}

/// A request presents the token that stands behind the first space of its first
/// `Authorization` header, without the white space round it, exactly where what
/// stands before that space is `bearer` in whatever case.
pub proof fn law_bearers_are_read_from_the_header(
    headers: Seq<HeaderView>,
    value: Seq<char>,
    scheme: Seq<char>,
    token: Seq<char>,
)
    ensures
        header_text(headers, "authorization"@) is None ==> bearer(headers) is None,
        header_text(headers, "authorization"@) == Some(value) && !value.contains(' ') ==> bearer(
            headers,
        ) is None,
        header_text(headers, "authorization"@) == Some(scheme + seq![' '] + token)
            && !scheme.contains(' ') ==> bearer(headers) == if same_ignoring_case(
            scheme,
            "bearer"@,
        ) {
            Some(trimmed(token))
        } else {
            None
        },
{
    law_split_at_the_first(value, ' ');
    if let Some((left, _)) = split_at_first(value, ' ') {
        assert(value[left.len() as int] == ' ');
    }
    if !scheme.contains(' ') {
        law_split_gives_both_sides(scheme, ' ', token);
    }
}

/// An expired token lets nobody in: whatever the clock was seen to read, a caller
/// is let in only where that is no later than the expiry of their token, which is
/// neither forged nor revoked; and with such a token they are. Who is let in came
/// before the second after the expiry was over, by a reading of the system's
/// clock.
pub proof fn law_callers_are_let_in_by_the_clock(
    tokens: TokensView,
    token: Seq<char>,
    clock: Option<u64>,
    caller: Result<Authenticated, AppError>,
)
    requires
        is_secs_reading(clock),
        tokens.is_judged(tokens.presented(token, clock), caller_view(caller)),
    ensures
        caller is Ok <==> {
            &&& clock is Some
            &&& tokens.opened(token) is Some
            &&& clock->0 <= tokens.opened(token)->0.exp
            &&& !tokens.revoked.contains_key(tokens.opened(token)->0.jti)
        },
        caller matches Ok(caller) ==> caller.0@ == tokens.opened(token)->0,
        caller matches Err(error) ==> error == AppError::InvalidToken,
        caller matches Ok(caller) ==> exists|reading: Option<u128>|
            {
                &&& #[trigger] is_wall_reading(reading)
                &&& reading is Some
                &&& reading->0 < (caller.0@.exp + 1) * 1_000_000_000
            },
{
    let reading = choose|reading: Option<u128>| #[trigger]
        is_wall_reading(reading) && clock == epoch_secs(reading);
    assert(is_wall_reading(reading));
}

/// A caller is seen as the claims they were let in with, and a refusal as the
/// refusal it is.
pub proof fn law_callers_are_seen_as_they_are(caller: Authenticated, error: AppError)
    ensures
        caller_view(Ok(caller)) == Ok::<Claims, AppError>(caller.0),
        caller_view(Err(error)) == Err::<Claims, AppError>(error),
{
}

} // verus!
