//! The `POST /login` and `POST /logout` handlers.
//!
//! A login is three steps, so that the expensive one can run where it blocks
//! nobody: [`start`] decides what is verified, [`UserDirectory::authenticate`]
//! verifies it, and [`settle`] and [`conclude`] answer. [`login`] puts them
//! together.

use crate::auth::error::AppError;
use crate::auth::password::is_match;
use crate::auth::throttle::{address_view, LoginThrottle, ThrottleView, Verdict};
use crate::auth::token::{Claims, ClaimsView, TokenService, TokensView};
use crate::auth::users::{are_valid, AccountView, Accounts, Authentication, UserDirectory};
use crate::common::dto::{LoginRequest, LoginResponse};
use crate::common::ids::{is_drawn, is_random_uuid};
use crate::common::time::is_secs_reading;
use vstd::prelude::*;

verus! {

/// Default ceiling on concurrent password verifications, for this many cores.
///
/// Argon2 is CPU-bound, so allowing more concurrent hashes than cores only
/// thrashes; the floor keeps a single-core container usable.
#[must_use]
pub fn default_hash_permits(cores: Option<usize>) -> (r: usize)
    requires
        cores != Some(0usize),
    ensures
        r >= 1,
        r == match cores {
            Some(cores) => cores,
            None => 2,
        },
{
    match cores {
        Some(cores) => cores,
        None => 2,
    }
}

/// Password used to force a rejection that costs exactly what a real one costs.
///
/// A throttled account must not answer faster than an unthrottled one, or the
/// throttle becomes the user-enumeration oracle the login path is built to
/// avoid. Verifying this instead of the caller's password does the same work.
/// It is not a legal password to register, so no account holds it; and what
/// comes of verifying it is not asked: see [`settle`].
pub const UNMATCHABLE: &'static str = "\0throttled\0";

/// The password that is verified, under the throttle's verdict.
pub open spec fn offered(verdict: Verdict, password: Seq<char>) -> Seq<char> {
    if verdict is AccountThrottled {
        UNMATCHABLE@
    } else {
        password
    }
}

/// Chooses the password to check. A throttled address is turned away; for a
/// throttled account it is one that nothing can match.
pub fn offer(verdict: Verdict, password: String) -> (r: Result<String, AppError>)
    ensures
        match verdict {
            Verdict::AddressThrottled => r == Err::<String, _>(AppError::AddressThrottled),
            _ => r matches Ok(verified) && verified@ == offered(verdict, password@),
        },
{
    match verdict {
        Verdict::AddressThrottled => Err(AppError::AddressThrottled),
        Verdict::AccountThrottled => Ok(UNMATCHABLE.to_owned()),
        Verdict::Allowed => Ok(password),
    }
}

/// Starts a login: decides what is verified. `permit` says whether a
/// verification may run.
///
/// Sheds rather than queues. Waiting for a permit would trade a bounded memory
/// problem for an unbounded latency one, and a caller who is going to be told
/// "try again" is better told immediately. It comes before anything else, so
/// saturation is refused identically for every username.
pub fn start(
    throttle: &mut LoginThrottle,
    permit: bool,
    username: &str,
    password: String,
    address: Option<&str>,
) -> (r: Result<(Verdict, String), AppError>)
    ensures
        final(throttle).clock() == old(throttle).clock(),
        if permit {
            exists|now: u128|
                {
                    let verdict = #[trigger] old(throttle)@.verdict(
                        username@,
                        address_view(address),
                        now,
                    );
                    &&& old(throttle).clock().reads(now)
                    &&& final(throttle)@ == old(throttle)@.after_check(
                        username@,
                        address_view(address),
                        now,
                    )
                    &&& match verdict {
                        Verdict::AddressThrottled => r == Err::<(Verdict, String), _>(
                            AppError::AddressThrottled,
                        ),
                        _ => r matches Ok((told, verified)) && told == verdict && verified@
                            == offered(verdict, password@),
                    }
                }
        } else {
            r == Err::<(Verdict, String), _>(AppError::Overloaded) && final(throttle)@ == old(
                throttle,
            )@
        },
{
    if !permit {
        return Err(AppError::Overloaded);
    }
    let verdict = throttle.check(username, address);
    match offer(verdict, password) {
        Ok(verified) => Ok((verdict, verified)),
        Err(error) => Err(error),
    }
}

/// Settles a login whose password was checked: for a throttled account it is
/// rejected, whatever was found.
pub fn settle(verdict: Verdict, outcome: Authentication) -> (r: Authentication)
    ensures
        r == if verdict is AccountThrottled {
            Authentication::Rejected
        } else {
            outcome
        },
{
    match verdict {
        Verdict::AccountThrottled => Authentication::Rejected,
        _ => outcome,
    }
}

/// What a successful login is answered with, for an account.
pub open spec fn is_granted(
    tokens: TokensView,
    account: AccountView,
    response: LoginResponse,
) -> bool {
    &&& response.token_type@ == "Bearer"@
    &&& response.expires_in == tokens.ttl.secs()
    &&& exists|jti: Seq<char>, now: u64|
        {
            &&& is_drawn(jti)
            &&& is_random_uuid(jti)
            &&& is_secs_reading(Some(now))
            &&& tokens.can_issue(now)
            &&& tokens.is_signed(
                response.access_token@,
                #[trigger] tokens.issued(account.id, account.username, jti, now),
            )
        }
}

/// Answers an accepted login, given what came of issuing a token.
pub fn grant(tokens: &TokenService, issued: Result<String, AppError>) -> (r: Result<
    LoginResponse,
    AppError,
>)
    ensures
        match issued {
            Ok(token) => r matches Ok(response) && response.access_token@ == token@
                && response.token_type@ == "Bearer"@ && response.expires_in == tokens@.ttl.secs(),
            Err(error) => r == Err::<LoginResponse, _>(error),
        },
{
    match issued {
        Ok(access_token) => Ok(
            LoginResponse {
                access_token,
                token_type: "Bearer".to_owned(),
                expires_in: tokens.ttl_secs(),
            },
        ),
        Err(error) => Err(error),
    }
}

/// Answers a login, given what came of the verification: a rejection counts
/// against account and address, and an acceptance clears the account's count
/// and grants a token.
pub fn conclude(
    throttle: &mut LoginThrottle,
    tokens: &TokenService,
    username: &str,
    address: Option<&str>,
    outcome: Authentication,
) -> (r: Result<LoginResponse, AppError>)
    requires
        outcome is Rejected ==> old(throttle)@.can_count(username@, address_view(address)),
    ensures
        final(throttle).clock() == old(throttle).clock(),
        match outcome {
            Authentication::Authenticated(user) => {
                &&& final(throttle)@ == old(throttle)@.after_success(username@)
                &&& match r {
                    Ok(response) => is_granted(tokens@, user@, response),
                    Err(error) => error is Clock && tokens@.is_out_of_time(),
                }
            },
            Authentication::Rejected => {
                &&& r == Err::<LoginResponse, _>(AppError::InvalidCredentials)
                &&& exists|now: u128|
                    old(throttle).clock().reads(now) && final(throttle)@ == #[trigger] old(
                        throttle,
                    )@.after_failure(username@, address_view(address), now)
            },
        },
{
    match outcome {
        Authentication::Authenticated(user) => {
            throttle.record_success(username);
            grant(tokens, tokens.issue(user.id(), user.username()))
        },
        Authentication::Rejected => {
            throttle.record_failure(username, address);
            Err(AppError::InvalidCredentials)
        },
    }
}

/// What a login leads to, where the throttle reads its clock at `now` and, on a
/// failure, at `then`: `before` and `after` are what the throttle knows.
pub open spec fn is_login(
    accounts: Accounts,
    tokens: TokensView,
    before: ThrottleView,
    after: ThrottleView,
    username: Seq<char>,
    password: Seq<char>,
    address: Option<Seq<char>>,
    now: u128,
    then: u128,
    answer: Result<LoginResponse, AppError>,
) -> bool {
    let verdict = before.verdict(username, address, now);
    let checked = before.after_check(username, address, now);
    if verdict is AddressThrottled {
        answer == Err::<LoginResponse, _>(AppError::AddressThrottled) && after == checked
    } else if verdict is Allowed && are_valid(accounts, username, password) {
        &&& after == checked.after_success(username)
        &&& match answer {
            Ok(response) => is_granted(tokens, accounts[username], response),
            Err(error) => error is Clock && tokens.is_out_of_time(),
        }
    } else {
        &&& answer == Err::<LoginResponse, _>(AppError::InvalidCredentials)
        &&& after == checked.after_failure(username, address, then)
    }
}

/// Exchanges a username and password for a bearer token. `permit` says whether
/// a password verification may run.
///
/// An account that does not exist, a wrong password and a throttled account are
/// one response.
pub fn login(
    users: &UserDirectory,
    throttle: &mut LoginThrottle,
    tokens: &TokenService,
    permit: bool,
    address: Option<&str>,
    request: LoginRequest,
) -> (r: Result<LoginResponse, AppError>)
    requires
        old(throttle)@.can_count(request.username@, address_view(address)),
    ensures
        final(throttle).clock() == old(throttle).clock(),
        if permit {
            exists|now: u128, then: u128|
                old(throttle).clock().reads(now) && old(throttle).clock().reads(then)
                    && #[trigger] is_login(
                    users@,
                    tokens@,
                    old(throttle)@,
                    final(throttle)@,
                    request.username@,
                    request.password@,
                    address_view(address),
                    now,
                    then,
                    r,
                )
        } else {
            r == Err::<LoginResponse, _>(AppError::Overloaded) && final(throttle)@ == old(throttle)@
        },
{
    let ghost before = throttle@;
    let ghost watch = throttle.clock();
    let LoginRequest { username, password } = request;
    let ghost told = password@;
    let (verdict, verified) = match start(
        throttle,
        permit,
        username.as_str(),
        password,
        address,
    ) {
        Ok(started) => started,
        Err(error) => {
            proof {
                if permit {
                    let now = choose|now: u128|
                        {
                            &&& #[trigger] before.verdict(username@, address_view(address), now)
                                is AddressThrottled
                            &&& watch.reads(now)
                            &&& throttle@ == before.after_check(
                                username@,
                                address_view(address),
                                now,
                            )
                        };
                    assert(is_login(
                        users@,
                        tokens@,
                        before,
                        throttle@,
                        username@,
                        told,
                        address_view(address),
                        now,
                        now,
                        Err::<LoginResponse, _>(error),
                    ));
                }
            }
            return Err(error);
        },
    };
    let ghost checked = throttle@;
    let found = users.authenticate(username.as_str(), verified.as_str());
    let outcome = settle(verdict, found);
    let ghost outcome_rejected = outcome is Rejected;
    let r = conclude(throttle, tokens, username.as_str(), address, outcome);
    proof {
        let now = choose|now: u128|
            {
                &&& verdict == #[trigger] before.verdict(username@, address_view(address), now)
                &&& verified@ == offered(verdict, told)
                &&& !(verdict is AddressThrottled)
                &&& watch.reads(now)
                &&& checked == before.after_check(username@, address_view(address), now)
            };
        let then = if outcome_rejected {
            choose|then: u128|
                watch.reads(then) && throttle@ == #[trigger] checked.after_failure(
                    username@,
                    address_view(address),
                    then,
                )
        } else {
            now
        };
        assert(is_login(
            users@,
            tokens@,
            before,
            throttle@,
            username@,
            told,
            address_view(address),
            now,
            then,
            r,
        ));
    }
    r
}

/// Revokes the presented token immediately; the answer is an empty `204`.
///
/// Expiry alone leaves a stolen token usable for its full lifetime. Idempotent:
/// revoking an already-revoked token would need a valid token to authenticate
/// with, and a revoked one no longer is, so the second call simply fails
/// authentication like any other unusable token.
pub fn logout(tokens: &mut TokenService, claims: &Claims) -> (r: Result<u16, AppError>)
    ensures
        match r {
            Ok(status) => status == 204 && exists|now: u64|
                is_secs_reading(Some(now)) && final(tokens)@ == #[trigger] old(
                    tokens,
                )@.after_revoke(claims@, now),
            Err(error) => error is Clock && final(tokens)@ == old(tokens)@ && is_secs_reading(None),
        },
{
    match tokens.revoke(claims) {
        Ok(()) => Ok(204),
        Err(error) => Err(error),
    }
}

/// An unknown username, a wrong password and a throttled account are answered
/// alike, to the byte, and counted alike.
pub proof fn law_rejections_are_indistinguishable(
    accounts: Accounts,
    tokens: TokensView,
    before: ThrottleView,
    after: ThrottleView,
    username: Seq<char>,
    password: Seq<char>,
    address: Option<Seq<char>>,
    now: u128,
    then: u128,
    answer: Result<LoginResponse, AppError>,
)
    requires
        is_login(
            accounts,
            tokens,
            before,
            after,
            username,
            password,
            address,
            now,
            then,
            answer,
        ),
        !(before.verdict(username, address, now) is AddressThrottled),
        ({
            ||| !accounts.contains_key(username)
            ||| !are_valid(accounts, username, password)
            ||| before.verdict(username, address, now) is AccountThrottled
        }),
    ensures
        answer is Err,
        answer->Err_0.reply() == AppError::InvalidCredentials.reply(),
        after == before.after_check(username, address, now).after_failure(username, address, then),
{
}

/// A throttled address is told so before any account is looked at: its answer
/// is the same for every username and password.
pub proof fn law_throttled_addresses_learn_nothing(
    accounts: Accounts,
    tokens: TokensView,
    before: ThrottleView,
    after: ThrottleView,
    username: Seq<char>,
    password: Seq<char>,
    address: Option<Seq<char>>,
    now: u128,
    then: u128,
    answer: Result<LoginResponse, AppError>,
)
    requires
        is_login(
            accounts,
            tokens,
            before,
            after,
            username,
            password,
            address,
            now,
            then,
            answer,
        ),
        before.verdict(username, address, now) is AddressThrottled,
    ensures
        answer == Err::<LoginResponse, _>(AppError::AddressThrottled),
        after.by_account == before.by_account,
{
}

/// Valid credentials are accepted: from an address and for an account that are
/// not throttled, only a clock that is out of range fails the login.
pub proof fn law_valid_credentials_are_accepted(
    accounts: Accounts,
    tokens: TokensView,
    before: ThrottleView,
    after: ThrottleView,
    username: Seq<char>,
    password: Seq<char>,
    address: Option<Seq<char>>,
    now: u128,
    then: u128,
    answer: Result<LoginResponse, AppError>,
)
    requires
        is_login(
            accounts,
            tokens,
            before,
            after,
            username,
            password,
            address,
            now,
            then,
            answer,
        ),
        before.verdict(username, address, now) is Allowed,
        are_valid(accounts, username, password),
    ensures
        match answer {
            Ok(response) => is_granted(tokens, accounts[username], response),
            Err(error) => error is Clock && tokens.is_out_of_time(),
        },
        after.by_account == before.after_check(username, address, now).by_account.remove(username),
{
}

/// The right password of an account is let in: from an address and for an account
/// that are not throttled, the answer is a token, unless the clock was seen where
/// none can be issued; and the count of the account is cleared.
pub proof fn law_the_right_password_gets_a_token(
    accounts: Accounts,
    tokens: TokensView,
    before: ThrottleView,
    after: ThrottleView,
    username: Seq<char>,
    password: Seq<char>,
    address: Option<Seq<char>>,
    now: u128,
    then: u128,
    answer: Result<LoginResponse, AppError>,
)
    requires
        is_login(
            accounts,
            tokens,
            before,
            after,
            username,
            password,
            address,
            now,
            then,
            answer,
        ),
        before.verdict(username, address, now) is Allowed,
        accounts.contains_key(username),
        is_match(password, accounts[username].password_hash),
    ensures
        answer is Ok || tokens.is_out_of_time(),
        answer matches Ok(response) ==> is_granted(tokens, accounts[username], response),
        answer matches Err(error) ==> error is Clock,
        !after.by_account.contains_key(username),
{
}

/// Nobody gets a token without the right password of an account, or while the
/// account or the address is throttled.
pub proof fn law_no_token_without_the_password(
    accounts: Accounts,
    tokens: TokensView,
    before: ThrottleView,
    after: ThrottleView,
    username: Seq<char>,
    password: Seq<char>,
    address: Option<Seq<char>>,
    now: u128,
    then: u128,
    answer: Result<LoginResponse, AppError>,
)
    requires
        is_login(
            accounts,
            tokens,
            before,
            after,
            username,
            password,
            address,
            now,
            then,
            answer,
        ),
        answer is Ok,
    ensures
        before.verdict(username, address, now) is Allowed,
        accounts.contains_key(username),
        is_match(password, accounts[username].password_hash),
{
}

/// A granted token is the account's own: it is signed by the active key over the
/// account's id and name and a drawn token id, from a reading of the clock until
/// the lifetime that the answer tells is over.
pub proof fn law_granted_tokens_are_the_accounts(
    tokens: TokensView,
    account: AccountView,
    response: LoginResponse,
)
    requires
        is_granted(tokens, account, response),
    ensures
        response.token_type@ == "Bearer"@,
        response.expires_in == tokens.ttl.secs(),
        exists|claims: ClaimsView|
            {
                &&& #[trigger] tokens.is_signed(response.access_token@, claims)
                &&& claims.sub == account.id
                &&& claims.username == account.username
                &&& is_drawn(claims.jti)
                &&& is_secs_reading(Some(claims.iat))
                &&& claims.exp == claims.iat + response.expires_in
            },
{
    let (jti, now) = choose|jti: Seq<char>, now: u64|
        {
            &&& is_drawn(jti)
            &&& is_random_uuid(jti)
            &&& is_secs_reading(Some(now))
            &&& tokens.can_issue(now)
            &&& tokens.is_signed(
                response.access_token@,
                #[trigger] tokens.issued(account.id, account.username, jti, now),
            )
        };
    let claims = tokens.issued(account.id, account.username, jti, now);
    assert(tokens.is_signed(response.access_token@, claims));
}

/// Only for a throttled account is another password checked than the one that was
/// told.
pub proof fn law_the_told_password_is_checked(verdict: Verdict, password: Seq<char>)
    ensures
        !(verdict is AccountThrottled) ==> offered(verdict, password) == password,
        verdict is AccountThrottled ==> offered(verdict, password) == "\0throttled\0"@,
{
}

} // verus!
