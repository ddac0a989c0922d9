//! Bearer token issuing, verification, and revocation.
//!
//! # Key rotation
//!
//! Every token carries a `kid` naming the key that signed it, and the service
//! holds one active signing key plus any number of retired verification keys.
//! Rotation is then an overlap rather than an outage: deploy the new key as
//! active with the old one retired, wait out the token lifetime, drop the old
//! one.
//!
//! The `kid` selects from *our* key set; it never selects an algorithm. The
//! accepted algorithm is pinned separately, because trusting a token's own
//! header for that is how `alg: none` and HMAC/RSA confusion land.
//!
//! # Revocation
//!
//! Expiry alone means a stolen token is valid for its full lifetime. Each token
//! carries a `jti`, and [`TokenService::revoke`] records it until its natural
//! expiry — so the list is bounded by issuance rate times lifetime, not by
//! time.

use crate::auth::error::AppError;
use crate::common::ids::{fresh_id, is_drawn, is_random_uuid};
use crate::common::listed::{lists, named, ListedMap};
use crate::common::members::{
    members, members_of, number_member, sole_number, sole_text, text_member, MemberView,
};
use crate::common::payload::{payload_bytes, payload_of};
use crate::common::time::{epoch_secs, is_secs_reading, is_wall_reading, unix_now, Span};
use crate::common::user_id::UserId;
use jsonwebtoken::{Algorithm, DecodingKey, EncodingKey, Header, Validation};
use vstd::prelude::*;

verus! {

/// One signing or verification key, named by its `kid`.
pub struct KeyMaterial {
    /// Identifier written into the token header.
    pub kid: String,
    /// The HMAC secret.
    pub secret: String,
}

/// What a key says.
#[verifier::ext_equal]
pub struct KeyView {
    /// Identifier written into the token header.
    pub kid: Seq<char>,
    /// The HMAC secret.
    pub secret: Seq<char>,
}

impl View for KeyMaterial {
    type V = KeyView;

    open spec fn view(&self) -> KeyView {
        KeyView { kid: self.kid@, secret: self.secret@ }
    }
}

impl Clone for KeyMaterial {
    fn clone(&self) -> (r: KeyMaterial)
        ensures
            r@ == self@,
    {
        KeyMaterial { kid: self.kid.clone(), secret: self.secret.clone() }
    }
}

/// What a list of keys says.
pub open spec fn keys_view(keys: Seq<KeyMaterial>) -> Seq<KeyView> {
    Seq::new(keys.len(), |i: int| keys[i]@)
}

impl KeyMaterial {
    /// Builds key material.
    #[must_use]
    pub fn new(kid: &str, secret: &str) -> (r: KeyMaterial)
        ensures
            r@ == (KeyView { kid: kid@, secret: secret@ }),
    {
        KeyMaterial { kid: kid.to_owned(), secret: secret.to_owned() }
    }
}

/// Claims carried by an issued token.
#[derive(Debug, PartialEq, Eq)]
pub struct Claims {
    /// Subject: the account's [`UserId`], not its username, because usernames
    /// may be reassigned while ids may not.
    pub sub: UserId,
    /// The account's login name at the time of issue, carried for logging.
    pub username: String,
    /// Unique token identifier, so one token can be revoked without touching
    /// the key that signed it.
    pub jti: String,
    /// Expiry, as seconds since the Unix epoch.
    pub exp: u64,
    /// Issued-at, as seconds since the Unix epoch.
    pub iat: u64,
}

/// What the claims of a token say.
#[verifier::ext_equal]
pub struct ClaimsView {
    /// The account's identifier.
    pub sub: Seq<char>,
    /// The account's login name at the time of issue.
    pub username: Seq<char>,
    /// Unique token identifier.
    pub jti: Seq<char>,
    /// Expiry, as seconds since the Unix epoch.
    pub exp: u64,
    /// Issued-at, as seconds since the Unix epoch.
    pub iat: u64,
}

impl View for Claims {
    type V = ClaimsView;

    open spec fn view(&self) -> ClaimsView {
        ClaimsView {
            sub: self.sub@,
            username: self.username@,
            jti: self.jti@,
            exp: self.exp,
            iat: self.iat,
        }
    }
}

impl Clone for Claims {
    fn clone(&self) -> (r: Claims)
        ensures
            r@ == self@,
    {
        Claims {
            sub: self.sub.clone(),
            username: self.username.clone(),
            jti: self.jti.clone(),
            exp: self.exp,
            iat: self.iat,
        }
    }
}

/// The claim that says when a token expires.
pub const EXPIRY: &'static str = "exp";

/// The claim that says whose token it is.
pub const SUBJECT: &'static str = "sub";

/// The key that the header of a token names: nothing where `token` is no token,
/// and nothing inside where its header names none.
pub uninterp spec fn jwt_kid(token: Seq<char>) -> Option<Option<Seq<char>>>;

/// Calls `jsonwebtoken::decode_header` and takes the key id out of the header.
/// The claim is that the header depends on the token alone.
#[verifier::external_body]
fn header_kid(token: &str) -> (r: Option<Option<String>>)
    ensures
        match r {
            Some(Some(kid)) => jwt_kid(token@) == Some(Some(kid@)),
            Some(None) => jwt_kid(token@) == Some(None::<Seq<char>>),
            None => jwt_kid(token@) is None,
        },
{
    jsonwebtoken::decode_header(token).ok().map(|header| header.kid)
}

/// The algorithm that tokens are signed with, and the only one accepted.
pub const ALGORITHM: &'static str = "HS256";

/// Whether a token carries a signature made with `secret` and the named
/// algorithm, holds both required claims, and is addressed to no particular
/// audience. Whether it has expired is not looked at.
pub uninterp spec fn jwt_accepts(
    token: Seq<char>,
    secret: Seq<char>,
    algorithm: Seq<char>,
    required: Seq<char>,
    required_too: Seq<char>,
) -> bool;

/// The claims that the payload of a token makes: each of the five once, as text
/// or number, in whatever order; what else it holds does not matter.
pub open spec fn claims_in(payload: Seq<u8>) -> Option<ClaimsView> {
    match members(payload) {
        Some(members) => match (
            sole_text(members, SUBJECT@),
            sole_text(members, "username"@),
            sole_text(members, "jti"@),
            sole_number(members, EXPIRY@),
            sole_number(members, "iat"@),
        ) {
            (Some(sub), Some(username), Some(jti), Some(exp), Some(iat)) => Some(
                ClaimsView { sub, username, jti, exp, iat },
            ),
            _ => None,
        },
        None => None,
    }
}

/// The claims of a token that was signed with `secret`; nothing of any other.
pub open spec fn signed_claims(token: Seq<char>, secret: Seq<char>) -> Option<ClaimsView> {
    if jwt_accepts(token, secret, ALGORITHM@, EXPIRY@, SUBJECT@) {
        match payload_bytes(token) {
            Some(payload) => claims_in(payload),
            None => None,
        }
    } else {
        None
    }
}

/// Whether a token that expires at `exp` is taken no longer at `now`.
pub open spec fn is_expired(exp: u64, now: u64) -> bool {
    exp < now
}

/// The claims, if there are any and they have not expired at `now`.
pub open spec fn unexpired(claims: Option<ClaimsView>, now: u64) -> Option<ClaimsView> {
    match claims {
        Some(claims) => if is_expired(claims.exp, now) {
            None
        } else {
            Some(claims)
        },
        None => None,
    }
}

/// Calls `jsonwebtoken::decode` for the named algorithm alone, and keeps nothing
/// of what the payload holds. Its own test of the expiry is switched off, so that
/// it reads no clock: the claim is that the outcome depends on the arguments
/// alone.
#[verifier::external_body]
fn accepts_token(
    token: &str,
    secret: &str,
    algorithm: &str,
    required: &str,
    required_too: &str,
) -> (r: bool)
    ensures
        r == jwt_accepts(token@, secret@, algorithm@, required@, required_too@),
{
    let Ok(algorithm) = algorithm.parse::<Algorithm>() else {
        return false;
    };
    let mut rules = Validation::new(algorithm);
    rules.validate_exp = false;
    rules.set_required_spec_claims(&[required, required_too]);
    let key = DecodingKey::from_secret(secret.as_bytes());
    jsonwebtoken::decode::<serde::de::IgnoredAny>(token, &key, &rules).is_ok()
}

/// Reads the claims that the payload of a token makes.
pub fn read_claims(payload: &[u8]) -> (r: Option<Claims>)
    ensures
        match r {
            Some(claims) => claims_in(payload@) == Some(claims@),
            None => claims_in(payload@) is None,
        },
{
    let members = match members_of(payload) {
        Some(members) => members,
        None => {
            return None;
        },
    };
    let sub = text_member(&members, SUBJECT);
    let username = text_member(&members, "username");
    let jti = text_member(&members, "jti");
    let exp = number_member(&members, EXPIRY);
    let iat = number_member(&members, "iat");
    match (sub, username, jti, exp, iat) {
        (Some(sub), Some(username), Some(jti), Some(exp), Some(iat)) => Some(
            Claims { sub: UserId::from(sub), username, jti, exp, iat },
        ),
        _ => None,
    }
}

/// Calls `jsonwebtoken::encode` for the named algorithm on the JSON object of
/// the claims, with a key made from a shared secret. For HMAC-SHA256, which takes
/// such a key, strings and numbers cannot fail to be signed. What is claimed of a
/// token is that its header names `kid`, that it is accepted with the same secret
/// and the same algorithm, and that its payload makes the claims.
#[verifier::external_body]
fn sign_token(
    kid: &str,
    secret: &str,
    algorithm: &str,
    sub: &str,
    username: &str,
    jti: &str,
    exp: u64,
    iat: u64,
) -> (r: Result<String, jsonwebtoken::errors::Error>)
    ensures
        algorithm@ == ALGORITHM@ ==> r is Ok,
        r matches Ok(token) ==> jwt_kid(token@) == Some(Some(kid@)),
        r matches Ok(token) ==> forall|required: Seq<char>, required_too: Seq<char>|
            (required == EXPIRY@ || required == SUBJECT@) && (required_too == EXPIRY@
                || required_too == SUBJECT@) ==> #[trigger] jwt_accepts(
                token@,
                secret@,
                algorithm@,
                required,
                required_too,
            ),
        r matches Ok(token) ==> payload_bytes(token@) is Some && claims_in(
            payload_bytes(token@)->0,
        ) == Some(ClaimsView { sub: sub@, username: username@, jti: jti@, exp, iat }),
{
    let mut header = Header::new(algorithm.parse::<Algorithm>()?);
    header.kid = Some(kid.to_owned());
    let mut object = serde_json::Map::new();
    object.insert("sub".to_owned(), sub.into());
    object.insert("username".to_owned(), username.into());
    object.insert("jti".to_owned(), jti.into());
    object.insert("exp".to_owned(), exp.into());
    object.insert("iat".to_owned(), iat.into());
    let key = EncodingKey::from_secret(secret.as_bytes());
    jsonwebtoken::encode(&header, &object, &key)
}

/// The secrets of retired keys by key id, where a later key takes the place of
/// an earlier one with the same id.
pub open spec fn retired_secrets(retired: Seq<KeyView>) -> Map<Seq<char>, Seq<char>>
    decreases retired.len(),
{
    if retired.len() == 0 {
        Map::empty()
    } else {
        retired_secrets(retired.drop_last()).insert(retired.last().kid, retired.last().secret)
    }
}

/// The secrets by key id: those of the retired keys and that of the active one,
/// whose id no retired key can take.
pub open spec fn keyring(active: KeyView, retired: Seq<KeyView>) -> Map<Seq<char>, Seq<char>> {
    retired_secrets(retired).insert(active.kid, active.secret)
}

/// What a token service knows.
#[verifier::ext_equal]
pub struct TokensView {
    /// The key that tokens are signed with.
    pub active: KeyView,
    /// Every secret whose tokens are still accepted, by key id.
    pub keys: Map<Seq<char>, Seq<char>>,
    /// How long an issued token is valid.
    pub ttl: Span,
    /// Revoked token ids, with the expiry after which they can be forgotten.
    pub revoked: Map<Seq<char>, u64>,
}

impl TokensView {
    /// The claims of a token that one of the accepted keys signed: the one that
    /// its header names.
    pub open spec fn opened(self, token: Seq<char>) -> Option<ClaimsView> {
        match jwt_kid(token) {
            Some(Some(kid)) => if self.keys.contains_key(kid) {
                signed_claims(token, self.keys[kid])
            } else {
                None
            },
            _ => None,
        }
    }

    /// The claims of a token that opens and has not expired at the clock's
    /// reading; nothing while the clock has none.
    pub open spec fn presented(self, token: Seq<char>, clock: Option<u64>) -> Option<ClaimsView> {
        match clock {
            Some(now) => unexpired(self.opened(token), now),
            None => None,
        }
    }

    /// The claims of a token issued at `now`.
    pub open spec fn issued(
        self,
        user: Seq<char>,
        username: Seq<char>,
        jti: Seq<char>,
        now: u64,
    ) -> ClaimsView {
        ClaimsView {
            sub: user,
            username,
            jti,
            exp: (now + self.ttl.secs()) as u64,
            iat: now,
        }
    }

    /// Whether a token issued at `now` has an expiry.
    pub open spec fn can_issue(self, now: u64) -> bool {
        now + self.ttl.secs() <= u64::MAX
    }

    /// Whether the wall clock was seen to read what no token can be issued at.
    pub open spec fn is_out_of_time(self) -> bool {
        exists|clock: Option<u64>| #[trigger]
            is_secs_reading(clock) && !(clock matches Some(now) && self.can_issue(now))
    }

    /// Whether `token` is one that the active key signed over `claims`.
    pub open spec fn is_signed(self, token: Seq<char>, claims: ClaimsView) -> bool {
        &&& jwt_kid(token) == Some(Some(self.active.kid))
        &&& signed_claims(token, self.active.secret) == Some(claims)
    }

    /// The revocations that must still be remembered at `now`: those of tokens
    /// that have not expired.
    pub open spec fn unforgotten(self, now: u64) -> Map<Seq<char>, u64> {
        Map::new(
            |jti: Seq<char>| self.revoked.contains_key(jti) && !is_expired(self.revoked[jti], now),
            |jti: Seq<char>| self.revoked[jti],
        )
    }

    /// What is known once a token was revoked at `now`.
    pub open spec fn after_revoke(self, claims: ClaimsView, now: u64) -> TokensView {
        TokensView {
            revoked: self.unforgotten(now).insert(claims.jti, claims.exp),
            ..self
        }
    }

    /// Whether `answer` is right for a token that opened as `opened`: the
    /// claims, unless they were revoked, and never why not.
    pub open spec fn is_judged(
        self,
        opened: Option<ClaimsView>,
        answer: Result<Claims, AppError>,
    ) -> bool {
        match opened {
            Some(claims) => if self.revoked.contains_key(claims.jti) {
                answer == Err::<Claims, _>(AppError::InvalidToken)
            } else {
                answer matches Ok(accepted) && accepted@ == claims
            },
            None => answer == Err::<Claims, _>(AppError::InvalidToken),
        }
    }
}

/// Signs, validates and revokes [`Claims`].
pub struct TokenService {
    active: KeyMaterial,
    /// Every secret whose tokens are still accepted, by key id.
    keys: ListedMap<String>,
    ttl: Span,
    /// Revoked token ids, with the expiry after which they can be forgotten.
    revoked: ListedMap<u64>,
}

/// What may be shown of a token service: no key material.
#[derive(Debug)]
pub struct TokenServiceSummary {
    /// Id of the key that tokens are signed with.
    pub active_kid: String,
    /// Ids of every key whose tokens are still accepted.
    pub accepted_kids: Vec<String>,
    /// How long an issued token is valid.
    pub ttl: Span,
}

impl View for TokenService {
    type V = TokensView;

    closed spec fn view(&self) -> TokensView {
        TokensView {
            active: self.active@,
            keys: self.keys@.map_values(|secret: String| secret@),
            ttl: self.ttl,
            revoked: self.revoked@,
        }
    }
}

impl TokenService {
    /// Builds a service that signs with `active` and also accepts tokens signed
    /// by any key in `retired`.
    #[must_use]
    pub fn new(active: &KeyMaterial, retired: &Vec<KeyMaterial>, ttl: Span) -> (r: TokenService)
        ensures
            r@ == (TokensView {
                active: active@,
                keys: keyring(active@, keys_view(retired@)),
                ttl,
                revoked: Map::empty(),
            }),
    {
        let ghost all = keys_view(retired@);
        let mut keys: ListedMap<String> = ListedMap::new();
        let mut i: usize = 0;
        assert(keys@.map_values(|secret: String| secret@) =~= retired_secrets(all.take(0)));
        while i < retired.len()
            invariant
                i <= retired.len(),
                all == keys_view(retired@),
                keys@.map_values(|secret: String| secret@) == retired_secrets(all.take(i as int)),
            decreases retired.len() - i,
        {
            let key = &retired[i];
            let ghost known = keys@;
            keys = keys.with(key.kid.clone(), key.secret.clone());
            proof {
                let shown = all.take(i + 1);
                assert(shown.drop_last() =~= all.take(i as int));
                assert(shown.last() == key@);
                assert(keys@.map_values(|secret: String| secret@) =~= known.map_values(
                    |secret: String| secret@,
                ).insert(key.kid@, key.secret@));
            }
            i = i + 1;
        }
        assert(all.take(i as int) =~= all);
        let ghost known = keys@;
        keys = keys.with(active.kid.clone(), active.secret.clone());
        assert(keys@.map_values(|secret: String| secret@) =~= known.map_values(
            |secret: String| secret@,
        ).insert(active.kid@, active.secret@));
        TokenService { active: active.clone(), keys, ttl, revoked: ListedMap::new() }
    }

    /// Lifetime of tokens issued by this service, in seconds.
    #[must_use]
    pub fn ttl_secs(&self) -> (r: u64)
        ensures
            r == self@.ttl.secs(),
    {
        self.ttl.as_secs()
    }

    /// Issues a token with the id `jti` for the given account at `now`. Fails
    /// exactly where the token would have no expiry.
    pub fn issue_at(&self, user_id: &UserId, username: &str, jti: &str, now: u64) -> (r: Result<
        String,
        AppError,
    >)
        ensures
            self@.can_issue(now) <==> r is Ok,
            match r {
                Ok(token) => self@.is_signed(
                    token@,
                    self@.issued(user_id@, username@, jti@, now),
                ),
                Err(error) => error is Clock,
            },
    {
        let exp: u64 = match now.checked_add(self.ttl.as_secs()) {
            Some(exp) => exp,
            None => {
                return Err(AppError::Clock);
            },
        };
        let signed = sign_token(
            self.active.kid.as_str(),
            self.active.secret.as_str(),
            ALGORITHM,
            user_id.as_str(),
            username,
            jti,
            exp,
            now,
        );
        match signed {
            Ok(token) => Ok(token),
            Err(error) => Err(AppError::TokenSigning(error)),
        }
    }

    /// Issues a token for the given account. Fails only where the wall clock
    /// reads before the Unix epoch, or too late to count the lifetime from.
    pub fn issue(&self, user_id: &UserId, username: &str) -> (r: Result<String, AppError>)
        ensures
            match r {
                Ok(token) => exists|jti: Seq<char>, now: u64|
                    {
                        &&& is_drawn(jti)
                        &&& is_random_uuid(jti)
                        &&& is_secs_reading(Some(now))
                        &&& self@.can_issue(now)
                        &&& self@.is_signed(
                            token@,
                            #[trigger] self@.issued(user_id@, username@, jti, now),
                        )
                    },
                Err(error) => error is Clock && self@.is_out_of_time(),
            },
    {
        match unix_now() {
            Some(now) => {
                let jti = fresh_id();
                let r = self.issue_at(user_id, username, jti.as_str(), now);
                assert(r matches Ok(token) ==> self@.is_signed(
                    token@,
                    self@.issued(user_id@, username@, jti@, now),
                ));
                r
            },
            None => Err(AppError::Clock),
        }
    }

    /// Judges a token by what it opened as: nothing where it did not open.
    pub fn judge(&self, opened: Option<Claims>) -> (r: Result<Claims, AppError>)
        ensures
            self@.is_judged(
                match opened {
                    Some(claims) => Some(claims@),
                    None => None,
                },
                r,
            ),
    {
        match opened {
            Some(claims) => {
                if self.revoked.contains_key(claims.jti.as_str()) {
                    Err(AppError::InvalidToken)
                } else {
                    Ok(claims)
                }
            },
            None => Err(AppError::InvalidToken),
        }
    }

    /// Opens a token: its header must name an accepted key, and that key must
    /// have signed it with the accepted algorithm; its payload must make the claims.
    fn open(&self, token: &str) -> (r: Option<Claims>)
        ensures
            match r {
                Some(claims) => self@.opened(token@) == Some(claims@),
                None => self@.opened(token@) is None,
            },
    {
        let kid = match header_kid(token) {
            Some(Some(kid)) => kid,
            _ => {
                return None;
            },
        };
        let secret = match self.keys.get(kid.as_str()) {
            Some(secret) => secret,
            None => {
                return None;
            },
        };
        if !accepts_token(token, secret.as_str(), ALGORITHM, EXPIRY, SUBJECT) {
            return None;
        }
        match payload_of(token) {
            Some(payload) => read_claims(payload.as_slice()),
            None => None,
        }
    }

    /// Validates a token's key, signature, algorithm, expiry and revocation at
    /// `now`: a token that opens is refused exactly where it is revoked, or has
    /// expired by then.
    pub fn verify_at(&self, token: &str, now: u64) -> (r: Result<Claims, AppError>)
        ensures
            self@.is_judged(unexpired(self@.opened(token@), now), r),
    {
        match self.open(token) {
            Some(claims) => {
                if claims.exp < now {
                    self.judge(None)
                } else {
                    self.judge(Some(claims))
                }
            },
            None => self.judge(None),
        }
    }

    /// Validates a token's key, signature, algorithm, expiry and revocation.
    ///
    /// Fails with [`AppError::InvalidToken`] in every way it can fail. The
    /// caller learns that the token is unusable, never why — distinguishing
    /// "expired" from "revoked" from "forged" tells an attacker how close they
    /// are. The clock is read once, and [`TokenService::verify_at`] answers for
    /// its reading; while it is set before the Unix epoch no token is taken.
    pub fn verify(&self, token: &str) -> (r: Result<Claims, AppError>)
        ensures
            exists|clock: Option<u64>|
                is_secs_reading(clock) && self@.is_judged(
                    #[trigger] self@.presented(token@, clock),
                    r,
                ),
    {
        let clock = unix_now();
        let r = match clock {
            Some(now) => self.verify_at(token, now),
            None => self.judge(None),
        };
        assert(self@.is_judged(self@.presented(token@, clock), r));
        r
    }

    /// Revokes a single token at `now`, effective immediately.
    pub fn revoke_at(&mut self, claims: &Claims, now: u64)
        ensures
            final(self)@ == old(self)@.after_revoke(claims@, now),
    {
        let ghost known = self.revoked@;
        let names = self.revoked.names();
        let mut kept: ListedMap<u64> = ListedMap::new();
        let mut i: usize = 0;
        while i < names.len()
            invariant
                i <= names.len(),
                known == self.revoked@,
                lists(names@, known),
                forall|jti: Seq<char>| #[trigger]
                    kept@.contains_key(jti) ==> known.contains_key(jti) && known[jti] >= now
                        && kept@[jti] == known[jti],
                forall|j: int|
                    0 <= j < i && known[(#[trigger] names@[j])@] >= now ==> kept@.contains_key(
                        names@[j]@,
                    ),
            decreases names.len() - i,
        {
            let name = &names[i];
            if let Some(expiry) = self.revoked.get(name.as_str()) {
                if *expiry >= now {
                    kept = kept.with(name.clone(), *expiry);
                }
            }
            assert(named(names@, names@[i as int]@));
            assert(known.contains_key(names@[i as int]@));
            i = i + 1;
        }
        proof {
            assert forall|jti: Seq<char>| known.contains_key(jti) && known[jti] >= now implies
                kept@.contains_key(jti) by {
                assert(named(names@, jti));
                let j = choose|j: int| 0 <= j < names@.len() && (#[trigger] names@[j])@ == jti;
                assert(kept@.contains_key(names@[j]@));
            }
            assert(kept@ =~= self@.unforgotten(now));
        }
        self.revoked = kept.with(claims.jti.clone(), claims.exp);
    }

    /// Revokes a single token, effective immediately.
    ///
    /// Recorded only until the token has expired anyway, so the list is
    /// bounded by issuance rate times lifetime rather than growing without
    /// limit. Fails only where the wall clock reads before the Unix epoch, and
    /// then changes nothing.
    pub fn revoke(&mut self, claims: &Claims) -> (r: Result<(), AppError>)
        ensures
            match r {
                Ok(()) => exists|now: u64|
                    is_secs_reading(Some(now)) && final(self)@ == #[trigger] old(
                        self,
                    )@.after_revoke(claims@, now),
                Err(error) => error is Clock && final(self)@ == old(self)@ && is_secs_reading(None),
            },
    {
        match unix_now() {
            Some(now) => {
                self.revoke_at(claims, now);
                Ok(())
            },
            None => Err(AppError::Clock),
        }
    }

    /// How many revocations are currently retained. The number is a queue
    /// depth, not a secret.
    #[must_use]
    pub fn revoked_count(&self) -> (r: usize)
        ensures
            r == self@.revoked.len(),
    {
        self.revoked.len()
    }

    /// What may be shown of the service.
    pub fn summary(&self) -> (r: TokenServiceSummary)
        ensures
            r.active_kid@ == self@.active.kid,
            lists(r.accepted_kids@, self@.keys),
            r.ttl == self@.ttl,
    {
        let names = self.keys.names();
        let mut accepted_kids: Vec<String> = Vec::new();
        let mut i: usize = 0;
        while i < names.len()
            invariant
                i <= names.len(),
                accepted_kids@ =~= names@.take(i as int),
            decreases names.len() - i,
        {
            accepted_kids.push(names[i].clone());
            i = i + 1;
        }
        assert(accepted_kids@ =~= names@);
        assert forall|kid: Seq<char>| #[trigger] self@.keys.contains_key(kid) <==> named(
            accepted_kids@,
            kid,
        ) by {
            assert(self@.keys.contains_key(kid) <==> self.keys@.contains_key(kid));
        }
        TokenServiceSummary { active_kid: self.active.kid.clone(), accepted_kids, ttl: self.ttl }
    }
}

/// The secret of a retired key is known, unless a later one has the same id.
proof fn lemma_retired_secret_is_known(retired: Seq<KeyView>, at: int)
    requires
        0 <= at < retired.len(),
        forall|i: int| at < i < retired.len() ==> (#[trigger] retired[i]).kid != retired[at].kid,
    ensures
        retired_secrets(retired).contains_key(retired[at].kid),
        retired_secrets(retired)[retired[at].kid] == retired[at].secret,
    decreases retired.len(),
{
    if at < retired.len() - 1 {
        let rest = retired.drop_last();
        assert(retired[retired.len() - 1].kid != retired[at].kid);
        assert forall|i: int| at < i < rest.len() implies (#[trigger] rest[i]).kid
            != rest[at].kid by {
            assert(retired[i].kid != retired[at].kid);
        }
        lemma_retired_secret_is_known(rest, at);
    }
}

/// A token that the service signed opens to its claims, whatever keys are
/// retired.
pub proof fn law_issued_tokens_open(
    active: KeyView,
    retired: Seq<KeyView>,
    tokens: TokensView,
    token: Seq<char>,
    claims: ClaimsView,
)
    requires
        tokens.active == active,
        tokens.keys == keyring(active, retired),
        tokens.is_signed(token, claims),
    ensures
        tokens.opened(token) == Some(claims),
{
}

/// A token that the service issued is accepted, with its claims, up to and
/// including the second in which it expires, unless it was revoked. From then on
/// it is refused.
pub proof fn law_issued_tokens_are_accepted_until_they_expire(
    active: KeyView,
    retired: Seq<KeyView>,
    tokens: TokensView,
    token: Seq<char>,
    claims: ClaimsView,
    now: u64,
    answer: Result<Claims, AppError>,
)
    requires
        tokens.active == active,
        tokens.keys == keyring(active, retired),
        tokens.is_signed(token, claims),
        tokens.is_judged(unexpired(tokens.opened(token), now), answer),
    ensures
        !tokens.revoked.contains_key(claims.jti) && now <= claims.exp ==> answer is Ok
            && answer->Ok_0@ == claims,
        tokens.revoked.contains_key(claims.jti) || now > claims.exp ==> answer == Err::<Claims, _>(
            AppError::InvalidToken,
        ),
{
}

/// A rotation invalidates no session: a token that a service signed opens to the
/// same claims at one whose active key is new, and that accepts the key of the
/// first as a retired one.
pub proof fn law_rotation_keeps_tokens_open(
    old_key: KeyView,
    new_key: KeyView,
    before: TokensView,
    after: TokensView,
    retired: Seq<KeyView>,
    at: int,
    token: Seq<char>,
    claims: ClaimsView,
)
    requires
        before.active == old_key,
        before.is_signed(token, claims),
        after.keys == keyring(new_key, retired),
        new_key.kid == old_key.kid ==> new_key.secret == old_key.secret,
        0 <= at < retired.len(),
        retired[at] == old_key,
        forall|i: int| at < i < retired.len() ==> (#[trigger] retired[i]).kid != old_key.kid,
    ensures
        after.opened(token) == Some(claims),
{
    lemma_retired_secret_is_known(retired, at);
}

/// A token whose header names no accepted key does not open: a dropped key
/// opens nothing.
pub proof fn law_unknown_keys_open_nothing(tokens: TokensView, token: Seq<char>)
    requires
        !(jwt_kid(token) matches Some(Some(kid)) && tokens.keys.contains_key(kid)),
    ensures
        tokens.opened(token) is None,
{
}

/// What is known after a run of revocations, each at its time.
pub open spec fn after_revocations(tokens: TokensView, run: Seq<(ClaimsView, u64)>) -> TokensView
    decreases run.len(),
{
    if run.len() == 0 {
        tokens
    } else {
        after_revocations(tokens, run.drop_last()).after_revoke(run.last().0, run.last().1)
    }
}

/// After a revocation and a run of others, none of them later than `then`, the
/// revoked token is still listed, or has expired by `then`. The accepted keys
/// stay.
proof fn lemma_revocations_outlast_their_tokens(
    tokens: TokensView,
    claims: ClaimsView,
    now: u64,
    later: Seq<(ClaimsView, u64)>,
    then: u64,
)
    requires
        forall|i: int| 0 <= i < later.len() ==> (#[trigger] later[i]).1 <= then,
        forall|i: int|
            0 <= i < later.len() && (#[trigger] later[i]).0.jti == claims.jti ==> later[i].0.exp
                >= claims.exp,
    ensures
        after_revocations(tokens.after_revoke(claims, now), later).keys == tokens.keys,
        ({
            let revoked = after_revocations(tokens.after_revoke(claims, now), later).revoked;
            ||| is_expired(claims.exp, then)
            ||| revoked.contains_key(claims.jti) && revoked[claims.jti] >= claims.exp
        }),
    decreases later.len(),
{
    if later.len() > 0 {
        let last = later.len() - 1;
        let fewer = later.drop_last();
        assert forall|i: int| 0 <= i < fewer.len() implies (#[trigger] fewer[i]).1 <= then && (
        fewer[i].0.jti == claims.jti ==> fewer[i].0.exp >= claims.exp) by {
            assert(later[i] == fewer[i]);
        }
        lemma_revocations_outlast_their_tokens(tokens, claims, now, fewer, then);
        assert(later[last].1 <= then);
    }
}

/// A revoked token is refused at every later reading, whatever else is revoked
/// in between: `later` holds those revocations, each with its time. (An id names
/// one token, so one that comes again comes with its own expiry.)
pub proof fn law_revoked_tokens_are_refused(
    tokens: TokensView,
    token: Seq<char>,
    claims: ClaimsView,
    now: u64,
    later: Seq<(ClaimsView, u64)>,
    then: u64,
    answer: Result<Claims, AppError>,
)
    requires
        tokens.opened(token) == Some(claims),
        forall|i: int| 0 <= i < later.len() ==> (#[trigger] later[i]).1 <= then,
        forall|i: int|
            0 <= i < later.len() && (#[trigger] later[i]).0.jti == claims.jti ==> later[i].0.exp
                >= claims.exp,
        ({
            let known = after_revocations(tokens.after_revoke(claims, now), later);
            known.is_judged(unexpired(known.opened(token), then), answer)
        }),
    ensures
        answer == Err::<Claims, _>(AppError::InvalidToken),
{
    lemma_revocations_outlast_their_tokens(tokens, claims, now, later, then);
}

/// A revocation touches no other token: one with another id is answered as
/// before, at every reading from then on. (Where that other one is revoked
/// itself, it is with its own expiry.)
pub proof fn law_revocation_touches_no_other_token(
    tokens: TokensView,
    claims: ClaimsView,
    now: u64,
    other: ClaimsView,
    then: u64,
    answer: Result<Claims, AppError>,
)
    requires
        other.jti != claims.jti,
        now <= then,
        tokens.revoked.contains_key(other.jti) ==> tokens.revoked[other.jti] >= other.exp,
    ensures
        tokens.after_revoke(claims, now).is_judged(unexpired(Some(other), then), answer)
            == tokens.is_judged(unexpired(Some(other), then), answer),
{
}

/// To revoke a token twice at one time is to revoke it once: the list does not
/// grow.
pub proof fn law_revocation_is_idempotent(tokens: TokensView, claims: ClaimsView, now: u64)
    ensures
        tokens.after_revoke(claims, now).after_revoke(claims, now) == tokens.after_revoke(
            claims,
            now,
        ),
{
    let once = tokens.after_revoke(claims, now);
    assert(once.after_revoke(claims, now).revoked =~= once.revoked);
}

/// The list of revocations is bounded: it holds the one just made, and of the
/// others exactly those of tokens that have not expired.
pub proof fn law_revocations_are_forgotten(
    tokens: TokensView,
    claims: ClaimsView,
    now: u64,
    jti: Seq<char>,
)
    requires
        jti != claims.jti,
    ensures
        tokens.after_revoke(claims, now).revoked.contains_key(jti) <==> tokens.revoked.contains_key(
            jti,
        ) && !is_expired(tokens.revoked[jti], now),
{
}

/// A token opens exactly where its header names an accepted key, the signature is
/// that key's under the one algorithm, expiry and subject are there, and its
/// payload makes the claims; and then it opens to those.
pub proof fn law_only_genuine_tokens_open(
    tokens: TokensView,
    token: Seq<char>,
    kid: Seq<char>,
    claims: ClaimsView,
)
    ensures
        tokens.opened(token) is Some ==> jwt_kid(token) is Some && jwt_kid(token)->0 is Some
            && tokens.keys.contains_key(jwt_kid(token)->0->0),
        jwt_kid(token) == Some(Some(kid)) && tokens.keys.contains_key(kid) ==> (tokens.opened(token)
            == Some(claims) <==> jwt_accepts(
            token,
            tokens.keys[kid],
            "HS256"@,
            "exp"@,
            "sub"@,
        ) && payload_bytes(token) is Some && claims_in(payload_bytes(token)->0) == Some(claims)),
{
}

/// A payload makes the claims exactly where each of the five names stands in it
/// once, with a text or a number for its value; they say what those values say.
pub proof fn law_claims_are_made_once(
    payload: Seq<u8>,
    made: Seq<MemberView>,
    claims: ClaimsView,
)
    requires
        members(payload) == Some(made),
    ensures
        claims_in(payload) == Some(claims) <==> {
            &&& sole_text(made, "sub"@) == Some(claims.sub)
            &&& sole_text(made, "username"@) == Some(claims.username)
            &&& sole_text(made, "jti"@) == Some(claims.jti)
            &&& sole_number(made, "exp"@) == Some(claims.exp)
            &&& sole_number(made, "iat"@) == Some(claims.iat)
        },
{
}

/// How a token is answered, by what it opens to and what the clock reads: with its
/// claims where the clock reads no later than its expiry and it is not revoked,
/// and otherwise as unusable, which no other answer is.
pub proof fn law_tokens_are_judged_by_expiry_and_revocation(
    tokens: TokensView,
    token: Seq<char>,
    clock: Option<u64>,
    answer: Result<Claims, AppError>,
)
    requires
        tokens.is_judged(tokens.presented(token, clock), answer),
    ensures
        answer is Ok <==> {
            &&& clock is Some
            &&& tokens.opened(token) is Some
            &&& clock->0 <= tokens.opened(token)->0.exp
            &&& !tokens.revoked.contains_key(tokens.opened(token)->0.jti)
        },
        answer matches Ok(claims) ==> claims@ == tokens.opened(token)->0,
        answer matches Err(error) ==> error == AppError::InvalidToken,
{
}

/// What is issued is a token of the account it is issued to, from now until its
/// lifetime is over, under its own id; and it can be issued wherever that end can
/// be counted.
pub proof fn law_issued_claims_are_the_accounts(
    tokens: TokensView,
    user: Seq<char>,
    username: Seq<char>,
    jti: Seq<char>,
    now: u64,
)
    ensures
        tokens.can_issue(now) <==> now + tokens.ttl.secs() <= u64::MAX,
        tokens.issued(user, username, jti, now).sub == user,
        tokens.issued(user, username, jti, now).username == username,
        tokens.issued(user, username, jti, now).jti == jti,
        tokens.issued(user, username, jti, now).iat == now,
        tokens.can_issue(now) ==> tokens.issued(user, username, jti, now).exp == now
            + tokens.ttl.secs(),
{
}

/// A token is signed only by the active key: its header names that key, the key
/// accepts it under the one algorithm, and its payload makes the claims.
pub proof fn law_signed_tokens_are_the_active_keys(
    tokens: TokensView,
    token: Seq<char>,
    claims: ClaimsView,
)
    ensures
        tokens.is_signed(token, claims) <==> {
            &&& jwt_kid(token) == Some(Some(tokens.active.kid))
            &&& jwt_accepts(token, tokens.active.secret, "HS256"@, "exp"@, "sub"@)
            &&& payload_bytes(token) is Some
            &&& claims_in(payload_bytes(token)->0) == Some(claims)
        },
{
}

/// The secrets of retired keys are those of the list, each under its own id.
proof fn lemma_retired_secrets_are_listed(retired: Seq<KeyView>, kid: Seq<char>)
    ensures
        retired_secrets(retired).contains_key(kid) ==> exists|i: int|
            0 <= i < retired.len() && (#[trigger] retired[i]).kid == kid && retired[i].secret
                == retired_secrets(retired)[kid],
    decreases retired.len(),
{
    if retired.len() > 0 {
        let fewer = retired.drop_last();
        let last = retired.len() - 1;
        lemma_retired_secrets_are_listed(fewer, kid);
        assert(retired[last] == retired.last());
        if retired.last().kid != kid && retired_secrets(retired).contains_key(kid) {
            let i = choose|i: int|
                0 <= i < fewer.len() && (#[trigger] fewer[i]).kid == kid && fewer[i].secret
                    == retired_secrets(fewer)[kid];
            assert(retired[i] == fewer[i]);
        }
    }
}

/// Only the keys that a service was made with are accepted: the active one under
/// its id, whatever is retired, and under any other id a retired key of that id.
pub proof fn law_only_given_keys_are_accepted(
    active: KeyView,
    retired: Seq<KeyView>,
    kid: Seq<char>,
)
    ensures
        keyring(active, retired).contains_key(active.kid),
        keyring(active, retired)[active.kid] == active.secret,
        kid != active.kid && keyring(active, retired).contains_key(kid) ==> exists|i: int|
            0 <= i < retired.len() && (#[trigger] retired[i]).kid == kid && retired[i].secret
                == keyring(active, retired)[kid],
        kid != active.kid && (exists|i: int|
            0 <= i < retired.len() && (#[trigger] retired[i]).kid == kid) ==> keyring(
            active,
            retired,
        ).contains_key(kid),
{
    lemma_retired_secrets_are_listed(retired, kid);
    if exists|i: int| 0 <= i < retired.len() && (#[trigger] retired[i]).kid == kid {
        let i = choose|i: int| 0 <= i < retired.len() && (#[trigger] retired[i]).kid == kid;
        lemma_listed_keys_are_known(retired, i);
    }
}

/// Every key of the list is known by its id.
proof fn lemma_listed_keys_are_known(retired: Seq<KeyView>, at: int)
    requires
        0 <= at < retired.len(),
    ensures
        retired_secrets(retired).contains_key(retired[at].kid),
    decreases retired.len(),
{
    if at < retired.len() - 1 {
        lemma_listed_keys_are_known(retired.drop_last(), at);
        assert(retired.drop_last()[at] == retired[at]);
    }
}

/// One log-out does not undo another: after two revocations both tokens are
/// listed, the earlier one for as long as the later revocation does not come
/// after its expiry; and nothing but the list changes.
pub proof fn law_later_revocations_keep_earlier_ones(
    tokens: TokensView,
    first: ClaimsView,
    then: u64,
    second: ClaimsView,
    later: u64,
)
    ensures
        ({
            let after = tokens.after_revoke(first, then).after_revoke(second, later);
            &&& after.revoked.contains_key(second.jti)
            &&& after.revoked[second.jti] == second.exp
            &&& later <= first.exp ==> after.revoked.contains_key(first.jti)
            &&& later <= first.exp && first.jti != second.jti ==> after.revoked[first.jti]
                == first.exp
            &&& after.active == tokens.active
            &&& after.keys == tokens.keys
            &&& after.ttl == tokens.ttl
        }),
{
}

/// Which revocations are remembered once a token was revoked: that one, under its
/// own expiry, and of the earlier ones exactly those whose token has not expired
/// by then, as they were.
pub proof fn law_a_revocation_is_remembered_until_it_is_not_needed(
    tokens: TokensView,
    claims: ClaimsView,
    now: u64,
    jti: Seq<char>,
)
    ensures
        tokens.after_revoke(claims, now).revoked.contains_key(jti) <==> jti == claims.jti || (
        tokens.revoked.contains_key(jti) && now <= tokens.revoked[jti]),
        jti != claims.jti && tokens.after_revoke(claims, now).revoked.contains_key(jti)
            ==> tokens.after_revoke(claims, now).revoked[jti] == tokens.revoked[jti],
        tokens.after_revoke(claims, now).revoked[claims.jti] == claims.exp,
{
}

/// Of two retired keys of one id the later counts.
pub proof fn law_the_last_retired_key_of_an_id_counts(
    active: KeyView,
    retired: Seq<KeyView>,
    at: int,
)
    requires
        0 <= at < retired.len(),
        retired[at].kid != active.kid,
        forall|i: int| at < i < retired.len() ==> (#[trigger] retired[i]).kid != retired[at].kid,
    ensures
        keyring(active, retired)[retired[at].kid] == retired[at].secret,
    decreases retired.len(),
{
    if at < retired.len() - 1 {
        let fewer = retired.drop_last();
        assert(retired[retired.len() - 1].kid != retired[at].kid);
        assert forall|i: int| at < i < fewer.len() implies (#[trigger] fewer[i]).kid
            != fewer[at].kid by {
            assert(retired[i].kid != retired[at].kid);
        }
        law_the_last_retired_key_of_an_id_counts(active, fewer, at);
    }
}

/// Keys and claims are seen whole: every one of them, in its place.
pub proof fn law_keys_and_claims_are_seen_whole(keys: Seq<KeyMaterial>, claims: Claims, at: int)
    ensures
        keys_view(keys).len() == keys.len(),
        0 <= at < keys.len() ==> keys_view(keys)[at].kid == keys[at].kid@
            && keys_view(keys)[at].secret == keys[at].secret@,
        claims@.sub == claims.sub@,
        claims@.username == claims.username@,
        claims@.jti == claims.jti@,
        claims@.exp == claims.exp,
        claims@.iat == claims.iat,
{
}

/// Only the clock keeps a service from issuing: it was seen to read before the
/// epoch, or so late that the lifetime of a token cannot be counted from there.
pub proof fn law_only_the_clock_keeps_tokens_back(tokens: TokensView)
    requires
        tokens.is_out_of_time(),
    ensures
        exists|reading: Option<u128>|
            {
                &&& #[trigger] is_wall_reading(reading)
                &&& reading matches Some(nanos) ==> nanos / 1_000_000_000 + tokens.ttl.secs()
                    > 18_446_744_073_709_551_615
            },
{
    let clock = choose|clock: Option<u64>| #[trigger]
        is_secs_reading(clock) && !(clock matches Some(now) && tokens.can_issue(now));
    let reading = choose|reading: Option<u128>| #[trigger]
        is_wall_reading(reading) && clock == epoch_secs(reading);
    assert(is_wall_reading(reading));
}

} // verus!
