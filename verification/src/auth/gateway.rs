//! The API gateway hop.
//!
//! Every profile request enters here, is authenticated, and is replayed against
//! the profile service with the caller's identity attached out-of-band.

use crate::auth::error::AppError;
use crate::auth::extract::{bearer, caller_view, Authenticated};
use crate::auth::token::{Claims, TokenService, TokensView};
use crate::common::headers::{INTERNAL_TOKEN, REQUEST_ID, USER_ID};
use crate::common::http::{find_header, header_value, headers_view, Header, HeaderView};
use crate::common::time::is_secs_reading;
use vstd::prelude::*;
use vstd::utf8::encode_utf8;

verus! {

/// The profile service, as seen from the gateway.
pub struct Upstream {
    /// Base URL of the profile service.
    pub base_url: String,
    /// Shared secret presented on the internal hop.
    pub internal_token: String,
}

impl Upstream {
    /// How long to wait for a TCP connection to the profile service, in
    /// seconds.
    pub const CONNECT_TIMEOUT: u64 = 2;

    /// How long to wait for a complete upstream response, in seconds.
    ///
    /// Without a bound, an upstream that accepts connections and then stops
    /// responding makes every gateway request hang forever, and the gateway
    /// dies of accumulated connections rather than of anything wrong with
    /// itself. Bounding it converts a cascading failure into a `502`.
    pub const REQUEST_TIMEOUT: u64 = 5;

    /// Builds an upstream handle.
    #[must_use]
    pub fn new(base_url: &str, internal_token: &str) -> (r: Upstream)
        ensures
            r.base_url@ == base_url@,
            r.internal_token@ == internal_token@,
    {
        Upstream { base_url: base_url.to_owned(), internal_token: internal_token.to_owned() }
    }
}

/// A client's header, copied under its own name, if the client sent it.
pub open spec fn copied(headers: Seq<HeaderView>, name: Seq<char>) -> Seq<HeaderView> {
    match header_value(headers, name) {
        Some(value) => seq![HeaderView { name, value }],
        None => Seq::empty(),
    }
}

/// The headers of the upstream request.
///
/// The client's are an allowlist, not a denylist: everything else is dropped,
/// which is what stops a client from supplying its own `x-user-id` or
/// `x-internal-token` and impersonating either the gateway or another user.
pub open spec fn upstream_headers(
    internal_token: Seq<char>,
    user: Seq<char>,
    client: Seq<HeaderView>,
) -> Seq<HeaderView> {
    seq![
        HeaderView { name: INTERNAL_TOKEN@, value: encode_utf8(internal_token) },
        HeaderView { name: USER_ID@, value: encode_utf8(user) },
    ] + copied(client, "content-type"@) + copied(client, "if-match"@) + copied(
        client,
        "idempotency-key"@,
    ) + copied(client, REQUEST_ID@)
}

/// The headers of an upstream response that are copied back to the client.
pub open spec fn client_headers(upstream: Seq<HeaderView>) -> Seq<HeaderView> {
    copied(upstream, "content-type"@) + copied(upstream, "etag"@)
}

/// Appends a header of `from` under its own name, if it is there.
fn copy_header(to: &mut Vec<Header>, from: &Vec<Header>, name: &str)
    ensures
        headers_view(final(to)@) == headers_view(old(to)@) + copied(headers_view(from@), name@),
{
    let ghost before = headers_view(to@);
    if let Some(value) = find_header(from, name) {
        to.push(Header::with_bytes(name, value.as_slice()));
    }
    assert(headers_view(to@) =~= before + copied(headers_view(from@), name@));
}

/// The request that is replayed against the profile service; its method and
/// body are the client's own. It cannot be printed, because the internal token
/// is among its headers.
pub struct UpstreamRequest {
    /// Where it goes.
    pub url: String,
    /// Its headers.
    pub headers: Vec<Header>,
}

/// Builds the request that is replayed against the profile service for an
/// authenticated caller.
///
/// The upstream never validates a token. It is told *who* the caller is by a
/// header, and believes it only because the request also carries the shared
/// internal secret. That keeps token verification in exactly one service.
pub fn forward(upstream: &Upstream, claims: &Claims, path: &str, headers: &Vec<Header>) -> (r:
    UpstreamRequest)
    ensures
        r.url@ == upstream.base_url@ + path@,
        headers_view(r.headers@) == upstream_headers(
            upstream.internal_token@,
            claims.sub@,
            headers_view(headers@),
        ),
{
    let mut url: String = upstream.base_url.clone();
    url.append(path);
    let mut sent: Vec<Header> = Vec::new();
    sent.push(Header::with_text(INTERNAL_TOKEN, upstream.internal_token.as_str()));
    sent.push(Header::with_text(USER_ID, claims.sub.as_str()));
    assert(headers_view(sent@) =~= seq![
        HeaderView { name: INTERNAL_TOKEN@, value: encode_utf8(upstream.internal_token@) },
        HeaderView { name: USER_ID@, value: encode_utf8(claims.sub@) },
    ]);
    copy_header(&mut sent, headers, "content-type");
    copy_header(&mut sent, headers, "if-match");
    // Client-chosen key that makes a retried create safe.
    copy_header(&mut sent, headers, "idempotency-key");
    // Correlation crosses the hop, so one id spans both services' logs. This
    // value is the gateway's, not the client's: it has been normalised already.
    copy_header(&mut sent, headers, REQUEST_ID);
    UpstreamRequest { url, headers: sent }
}

/// Builds the request that is replayed against the profile service, given what
/// came of authenticating the caller; who could not be authenticated is told
/// why.
pub fn replay(
    upstream: &Upstream,
    caller: Result<Authenticated, AppError>,
    path: &str,
    headers: &Vec<Header>,
) -> (r: Result<UpstreamRequest, AppError>)
    ensures
        match caller {
            Ok(caller) => r matches Ok(request) && request.url@ == upstream.base_url@ + path@
                && headers_view(request.headers@) == upstream_headers(
                upstream.internal_token@,
                caller.0.sub@,
                headers_view(headers@),
            ),
            Err(error) => r == Err::<UpstreamRequest, _>(error),
        },
{
    match caller {
        Ok(caller) => Ok(forward(upstream, &caller.0, path, headers)),
        Err(error) => Err(error),
    }
}

/// Authenticates the caller and builds the request that is replayed against the
/// profile service.
pub fn proxy(
    upstream: &Upstream,
    tokens: &TokenService,
    path: &str,
    headers: &Vec<Header>,
) -> (r: Result<UpstreamRequest, AppError>)
    ensures
        exists|clock: Option<u64>|
            (bearer(headers_view(headers@)) is Some ==> is_secs_reading(clock))
                && #[trigger] is_proxied(
                upstream.base_url@,
                upstream.internal_token@,
                tokens@,
                path@,
                headers_view(headers@),
                clock,
                r,
            ),
{
    let caller = Authenticated::from_headers(headers, tokens);
    let ghost claims = caller_view(caller);
    let r = replay(upstream, caller, path, headers);
    proof {
        let clock = match bearer(headers_view(headers@)) {
            Some(token) => choose|clock: Option<u64>|
                is_secs_reading(clock) && tokens@.is_judged(
                    #[trigger] tokens@.presented(token, clock),
                    claims,
                ),
            None => None,
        };
        assert(is_proxied(
            upstream.base_url@,
            upstream.internal_token@,
            tokens@,
            path@,
            headers_view(headers@),
            clock,
            r,
        ));
    }
    r
}

/// What becomes of a request at the gateway, by what the clock reads: with a
/// bearer token that opens to claims that are neither revoked nor expired it is
/// forwarded in the name of their subject, and otherwise refused.
pub open spec fn is_proxied(
    base_url: Seq<char>,
    internal_token: Seq<char>,
    tokens: TokensView,
    path: Seq<char>,
    headers: Seq<HeaderView>,
    clock: Option<u64>,
    answer: Result<UpstreamRequest, AppError>,
) -> bool {
    match bearer(headers) {
        Some(token) => match tokens.presented(token, clock) {
            Some(claims) => if tokens.revoked.contains_key(claims.jti) {
                answer == Err::<UpstreamRequest, _>(AppError::InvalidToken)
            } else {
                answer matches Ok(request) && request.url@ == base_url + path && headers_view(
                    request.headers@,
                ) == upstream_headers(internal_token, claims.sub, headers)
            },
            None => answer == Err::<UpstreamRequest, _>(AppError::InvalidToken),
        },
        None => answer == Err::<UpstreamRequest, _>(AppError::MissingBearer),
    }
}

/// A response as the profile service gave it, or as the client gets it.
#[derive(Debug)]
pub struct Relay {
    /// Status code.
    pub status: u16,
    /// Headers.
    pub headers: Vec<Header>,
    /// Body.
    pub body: Vec<u8>,
}

/// Answers the client with what the profile service answered: its status and
/// body as they are, and two of its headers. Where it could not be reached, or
/// its response was unreadable, the reason is not told.
pub fn relay(answered: Result<Relay, String>) -> (r: Result<Relay, AppError>)
    ensures
        match answered {
            Ok(upstream) => r matches Ok(answer) && answer.status == upstream.status
                && answer.body@ == upstream.body@ && headers_view(answer.headers@)
                == client_headers(headers_view(upstream.headers@)),
            Err(reason) => r == Err::<Relay, _>(AppError::Upstream(reason)),
        },
{
    match answered {
        Ok(upstream) => {
            let mut headers: Vec<Header> = Vec::new();
            assert(headers_view(headers@) =~= Seq::<HeaderView>::empty());
            copy_header(&mut headers, &upstream.headers, "content-type");
            copy_header(&mut headers, &upstream.headers, "etag");
            assert(headers_view(headers@) =~= client_headers(headers_view(upstream.headers@)));
            Ok(Relay { status: upstream.status, headers, body: upstream.body })
        },
        Err(reason) => Err(AppError::Upstream(reason)),
    }
}

/// A header list in front of another is read first.
proof fn lemma_first_of_two(left: Seq<HeaderView>, right: Seq<HeaderView>, name: Seq<char>)
    ensures
        header_value(left + right, name) == match header_value(left, name) {
            Some(value) => Some(value),
            None => header_value(right, name),
        },
    decreases left.len(),
{
    if left.len() == 0 {
        assert(left + right =~= right);
    } else {
        assert((left + right)[0] == left[0]);
        assert((left + right).skip(1) =~= left.skip(1) + right);
        lemma_first_of_two(left.skip(1), right, name);
    }
}

/// A copied header reads under its own name as it did, and under no other.
proof fn lemma_copied(headers: Seq<HeaderView>, name: Seq<char>, other: Seq<char>)
    ensures
        header_value(copied(headers, name), other) == if other == name {
            header_value(headers, name)
        } else {
            None
        },
{
    reveal_with_fuel(header_value, 2);
    let list = copied(headers, name);
    if list.len() > 0 {
        assert(list[0].name == name);
        assert(list.skip(1) =~= Seq::<HeaderView>::empty());
    }
}

/// The names of the gateway's own headers differ from each other and from those
/// that are copied.
proof fn lemma_names_differ()
    ensures
        INTERNAL_TOKEN@ != USER_ID@,
        INTERNAL_TOKEN@ != REQUEST_ID@,
        USER_ID@ != REQUEST_ID@,
        "content-type"@ != INTERNAL_TOKEN@,
        "content-type"@ != USER_ID@,
        "if-match"@ != INTERNAL_TOKEN@,
        "if-match"@ != USER_ID@,
        "idempotency-key"@ != INTERNAL_TOKEN@,
        "idempotency-key"@ != USER_ID@,
{
    reveal_strlit("x-internal-token");
    reveal_strlit("x-user-id");
    reveal_strlit("x-request-id");
    reveal_strlit("content-type");
    reveal_strlit("if-match");
    reveal_strlit("idempotency-key");
    assert(INTERNAL_TOKEN@[2] == 'i');
    assert(USER_ID@[2] == 'u');
    assert(REQUEST_ID@[2] == 'r');
    assert("content-type"@[0] == 'c');
    assert("if-match"@[0] == 'i');
    assert("idempotency-key"@[0] == 'i');
    assert(INTERNAL_TOKEN@[0] == 'x' && USER_ID@[0] == 'x');
}

/// No client can impersonate the gateway or another user: whatever headers a
/// request comes with, the upstream is told the internal token and the verified
/// subject, and nothing else under those names.
pub proof fn law_identity_cannot_be_spoofed(
    internal_token: Seq<char>,
    user: Seq<char>,
    client: Seq<HeaderView>,
)
    ensures
        header_value(upstream_headers(internal_token, user, client), INTERNAL_TOKEN@) == Some(
            encode_utf8(internal_token),
        ),
        header_value(upstream_headers(internal_token, user, client), USER_ID@) == Some(
            encode_utf8(user),
        ),
        forall|i: int|
            2 <= i < upstream_headers(internal_token, user, client).len() ==> (
            #[trigger] upstream_headers(internal_token, user, client)[i]).name != INTERNAL_TOKEN@
                && upstream_headers(internal_token, user, client)[i].name != USER_ID@,
{
    lemma_names_differ();
    let sent = upstream_headers(internal_token, user, client);
    assert(sent[0] == (HeaderView {
        name: INTERNAL_TOKEN@,
        value: encode_utf8(internal_token),
    }));
    assert(sent[1] == (HeaderView { name: USER_ID@, value: encode_utf8(user) }));
    assert(sent.skip(1)[0] == sent[1]);
    reveal_with_fuel(header_value, 3);
}

/// Only the client's allowlisted headers reach the upstream; those do, as they
/// came.
pub proof fn law_only_allowlisted_headers_are_forwarded(
    internal_token: Seq<char>,
    user: Seq<char>,
    client: Seq<HeaderView>,
    name: Seq<char>,
)
    requires
        name != INTERNAL_TOKEN@,
        name != USER_ID@,
    ensures
        header_value(upstream_headers(internal_token, user, client), name) == if name
            == "content-type"@ || name == "if-match"@ || name == "idempotency-key"@ || name
            == REQUEST_ID@ {
            header_value(client, name)
        } else {
            None
        },
{
    let own = seq![
        HeaderView { name: INTERNAL_TOKEN@, value: encode_utf8(internal_token) },
        HeaderView { name: USER_ID@, value: encode_utf8(user) },
    ];
    let first = own + copied(client, "content-type"@);
    let second = first + copied(client, "if-match"@);
    let third = second + copied(client, "idempotency-key"@);
    assert(header_value(own, name) is None) by {
        assert(own.skip(1)[0] == own[1]);
        assert(own.skip(1).skip(1) =~= Seq::<HeaderView>::empty());
        reveal_with_fuel(header_value, 3);
    }
    lemma_copied(client, "content-type"@, name);
    lemma_copied(client, "if-match"@, name);
    lemma_copied(client, "idempotency-key"@, name);
    lemma_copied(client, REQUEST_ID@, name);
    lemma_first_of_two(own, copied(client, "content-type"@), name);
    lemma_first_of_two(first, copied(client, "if-match"@), name);
    lemma_first_of_two(second, copied(client, "idempotency-key"@), name);
    lemma_first_of_two(third, copied(client, REQUEST_ID@), name);
}

/// Of the upstream's headers, only the content type and the entity tag reach
/// the client; those do, as they came.
pub proof fn law_only_two_headers_are_relayed(upstream: Seq<HeaderView>, name: Seq<char>)
    ensures
        header_value(client_headers(upstream), name) == if name == "content-type"@ || name
            == "etag"@ {
            header_value(upstream, name)
        } else {
            None
        },
{
    lemma_copied(upstream, "content-type"@, name);
    lemma_copied(upstream, "etag"@, name);
    lemma_first_of_two(
        copied(upstream, "content-type"@),
        copied(upstream, "etag"@),
        name,
    );
}

/// A request that the gateway forwards passes the profile service's own check,
/// with the verified subject for its caller, wherever that is a text that a
/// header can carry.
pub proof fn law_forwarded_requests_are_internal(
    internal_token: Seq<char>,
    user: Seq<char>,
    client: Seq<HeaderView>,
)
    ensures
        crate::profile::auth::is_internal(
            upstream_headers(internal_token, user, client),
            internal_token,
        ),
        crate::common::http::header_text(
            upstream_headers(internal_token, user, client),
            USER_ID@,
        ) == crate::common::http::value_text(encode_utf8(user)),
{
    law_identity_cannot_be_spoofed(internal_token, user, client);
}

/// Which requests are forwarded: exactly those with a bearer token that opens, has
/// not expired by the clock's reading and is not revoked. They go to the same path
/// of the profile service, in the name of the token's subject and under the
/// internal token; the others are told that they lack a usable token.
pub proof fn law_only_authenticated_requests_are_forwarded(
    base_url: Seq<char>,
    internal_token: Seq<char>,
    tokens: TokensView,
    path: Seq<char>,
    headers: Seq<HeaderView>,
    clock: Option<u64>,
    answer: Result<UpstreamRequest, AppError>,
)
    requires
        is_proxied(base_url, internal_token, tokens, path, headers, clock, answer),
    ensures
        answer is Ok <==> {
            &&& bearer(headers) is Some
            &&& clock is Some
            &&& tokens.opened(bearer(headers)->0) is Some
            &&& clock->0 <= tokens.opened(bearer(headers)->0)->0.exp
            &&& !tokens.revoked.contains_key(tokens.opened(bearer(headers)->0)->0.jti)
        },
        answer matches Ok(request) ==> {
            &&& request.url@ == base_url + path
            &&& header_value(headers_view(request.headers@), USER_ID@) == Some(
                encode_utf8(tokens.opened(bearer(headers)->0)->0.sub),
            )
            &&& header_value(headers_view(request.headers@), INTERNAL_TOKEN@) == Some(
                encode_utf8(internal_token),
            )
            &&& header_value(headers_view(request.headers@), "if-match"@) == header_value(
                headers,
                "if-match"@,
            )
            &&& header_value(headers_view(request.headers@), "idempotency-key"@) == header_value(
                headers,
                "idempotency-key"@,
            )
        },
        bearer(headers) is None ==> answer == Err::<UpstreamRequest, _>(AppError::MissingBearer),
        bearer(headers) is Some && answer is Err ==> answer == Err::<UpstreamRequest, _>(
            AppError::InvalidToken,
        ),
{
    lemma_names_differ();
    if answer is Ok {
        let user = tokens.opened(bearer(headers)->0)->0.sub;
        law_identity_cannot_be_spoofed(internal_token, user, headers);
        law_only_allowlisted_headers_are_forwarded(internal_token, user, headers, "if-match"@);
        law_only_allowlisted_headers_are_forwarded(
            internal_token,
            user,
            headers,
            "idempotency-key"@,
        );
    }
}

/// No name is sent twice, neither to the profile service nor to the client.
pub proof fn law_each_header_is_sent_once(
    internal_token: Seq<char>,
    user: Seq<char>,
    client: Seq<HeaderView>,
    i: int,
    j: int,
)
    ensures
        0 <= i < j < upstream_headers(internal_token, user, client).len() ==> upstream_headers(
            internal_token,
            user,
            client,
        )[i].name != upstream_headers(internal_token, user, client)[j].name,
        0 <= i < j < client_headers(client).len() ==> client_headers(client)[i].name
            != client_headers(client)[j].name,
{
    lemma_names_differ();
    reveal_strlit("x-request-id");
    reveal_strlit("content-type");
    reveal_strlit("if-match");
    reveal_strlit("idempotency-key");
    reveal_strlit("etag");
    assert("content-type"@.len() == 12 && "content-type"@[0] == 'c');
    assert("if-match"@.len() == 8);
    assert("idempotency-key"@.len() == 15);
    assert(REQUEST_ID@.len() == 12 && REQUEST_ID@[0] == 'x');
    assert("etag"@.len() == 4);
}

/// The profile service is waited for, but not for ever: a connection is given up
/// on before a request is.
pub proof fn law_the_upstream_is_waited_for_in_bounds()
    ensures
        0 < Upstream::CONNECT_TIMEOUT < Upstream::REQUEST_TIMEOUT <= 5,
        Upstream::CONNECT_TIMEOUT == 2,
        Upstream::REQUEST_TIMEOUT == 5,
{
}

} // verus!
