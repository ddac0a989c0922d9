//! Handlers for `/profile`.
//!
//! The concurrency contract lives in the status codes:
//!
//! | Request                     | Response                          |
//! |-----------------------------|-----------------------------------|
//! | `POST`, no profile yet      | `201` + `ETag: "1"`               |
//! | `POST`, profile exists      | `409`                             |
//! | `GET`                       | `200` + `ETag: "n"`, or `404`     |
//! | `PUT`, no `If-Match`        | `428`                             |
//! | `PUT`, `If-Match` stale     | `412` + `ETag: "n"` (the winner)  |
//! | `PUT`, `If-Match` current   | `200` + `ETag: "n+1"`             |
//!
//! Each handler is there twice: as the decisions before and after the store is
//! asked, for a store that is asked elsewhere, and put together with a
//! [`ProfileRepository`] at hand.

use crate::common::dto::{error_json, InputView, Profile, ProfileInput, ProfileView};
use crate::common::http::{
    find_header, find_text, header_text, header_value, headers_view, json_reply, to_text,
    law_visible_values_are_text, value_text, Header, HeaderView, Reply, ReplyView,
};
use crate::common::reading::{
    items_read, lemma_comma_parts, lemma_whole_is_one_part, outside, parts, read_on,
};
use crate::common::text::{characters, decimal, is_digit, lemma_decimal};
use crate::common::time::{is_ms_reading, Span, Stopwatch};
use crate::common::user_id::UserId;
use crate::common::version::{law_tag_reads_back, tag, version_of, Version, INITIAL};
use crate::profile::error::ProfileError;
use crate::profile::idempotency::{
    after_abandon, after_begin, after_finish, fingerprint_of, live, lookup, Entries, EntryView,
    IdempotencyStore, Lookup, LookupView, Recorded, RecordedView,
};
use crate::profile::store::{
    accepted, after_create, after_update, create_answer, current, history_of, history_view,
    is_applied, lemma_revision_is_one_item, projection, Histories, ProfileRepository, Revision,
    RevisionView, StoreError, Update, LAST_PORTABLE,
};
use std::str::FromStr;
use std::sync::Arc;
use vstd::prelude::*;

verus! {

/// Header carrying a client-chosen key that makes a retried create safe.
pub const IDEMPOTENCY_KEY: &'static str = "idempotency-key";

/// The idempotency key of a request, if it carries one.
pub open spec fn key_of(headers: Seq<HeaderView>) -> Option<Seq<char>> {
    match header_text(headers, IDEMPOTENCY_KEY@) {
        Some(key) => if key.len() > 0 {
            Some(key)
        } else {
            None
        },
        None => None,
    }
}

/// The idempotency key of a request, if it carries one.
pub fn idempotency_key(headers: &Vec<Header>) -> (r: Option<String>)
    ensures
        match r {
            Some(key) => key_of(headers_view(headers@)) == Some(key@),
            None => key_of(headers_view(headers@)) is None,
        },
{
    match find_text(headers, IDEMPOTENCY_KEY) {
        Some(key) => {
            if key.as_str().is_empty() {
                None
            } else {
                Some(key)
            }
        },
        None => None,
    }
}

/// Whether a text can stand in a header: it holds no control character but the
/// tab.
pub open spec fn is_header_safe(text: Seq<char>) -> bool {
    forall|i: int| 0 <= i < text.len() ==> is_header_char(#[trigger] text[i])
}

/// Whether a character can stand in a header.
pub open spec fn is_header_char(c: char) -> bool {
    (c as u32 >= 32 && c as u32 != 127) || c as u32 == 9
}

/// Whether a text can stand in a header.
fn header_safe(text: &str) -> (r: bool)
    ensures
        r == is_header_safe(text@),
{
    let chars = characters(text);
    let mut i: usize = 0;
    while i < chars.len()
        invariant
            i <= chars.len(),
            chars@ == text@,
            forall|j: int| 0 <= j < i ==> is_header_char(#[trigger] text@[j]),
        decreases chars.len() - i,
    {
        let c: u32 = chars[i] as u32;
        if !((c >= 32 && c != 127) || c == 9) {
            assert(!is_header_char(text@[i as int]));
            return false;
        }
        i = i + 1;
    }
    true
}

/// The response that a recorded outcome is served with: a status that is none
/// is taken for `201`, and an `ETag` that cannot stand in a header is a fault.
pub open spec fn replayed(recorded: RecordedView) -> ReplyView {
    let status = if 100 <= recorded.status <= 999 {
        recorded.status
    } else {
        201
    };
    match recorded.etag {
        Some(etag) => if is_header_safe(etag) {
            json_reply(status, Some(("etag"@, etag)), recorded.body)
        } else {
            ReplyView { status: 500, headers: Seq::empty(), body: Seq::empty() }
        },
        None => json_reply(status, None, recorded.body),
    }
}

/// Renders a recorded outcome, whether it is being served for the first time or
/// replayed for a retry. One function, so the two cannot drift.
pub fn replay(recorded: &Recorded) -> (r: Reply)
    ensures
        r@ == replayed(recorded@),
{
    let status: u16 = if 100 <= recorded.status && recorded.status <= 999 {
        recorded.status
    } else {
        201
    };
    let body = recorded.body.clone();
    match &recorded.etag {
        Some(etag) => {
            if header_safe(etag.as_str()) {
                Reply::json_with(status, "etag", etag.as_str(), body)
            } else {
                let headers: Vec<(String, String)> = Vec::new();
                let fault = Reply { status: 500, headers, body: String::new() };
                assert(fault@ =~= replayed(recorded@));
                fault
            }
        },
        None => Reply::json(status, body),
    }
}

/// What a create does first.
pub enum Opening {
    /// Do the work.
    Run,
    /// The request is answered already.
    Answered(Result<Reply, ProfileError>),
}

/// What a create does first, where the store says this about its key.
pub open spec fn is_opening(said: LookupView, opening: Opening) -> bool {
    match said {
        LookupView::Reserved => opening is Run,
        LookupView::InFlight => opening matches Opening::Answered(Err(error))
            && error is IdempotencyInFlight,
        LookupView::BodyMismatch => opening matches Opening::Answered(Err(error))
            && error is IdempotencyReused,
        LookupView::Replay(recorded) => opening matches Opening::Answered(Ok(reply)) && reply@
            == replayed(recorded),
    }
}

/// What a create does first, given what the store says about its key.
pub fn opening_of(said: Lookup) -> (r: Opening)
    ensures
        is_opening(said@, r),
{
    match said {
        Lookup::Reserved => Opening::Run,
        Lookup::InFlight => Opening::Answered(Err(ProfileError::IdempotencyInFlight)),
        Lookup::BodyMismatch => Opening::Answered(Err(ProfileError::IdempotencyReused)),
        Lookup::Replay(recorded) => Opening::Answered(Ok(replay(&recorded))),
    }
}

/// Reserves the key of a create before anything is done, so two concurrent
/// retries cannot both run. A create without a key goes on.
pub fn open_create(
    idempotency: &mut IdempotencyStore,
    user_id: &UserId,
    key: &Option<String>,
    body: &str,
) -> (r: Opening)
    ensures
        final(idempotency).retention() == old(idempotency).retention(),
        final(idempotency).reservation_timeout() == old(idempotency).reservation_timeout(),
        final(idempotency).clock() == old(idempotency).clock(),
        match key {
            Some(key) => exists|now: u128|
                {
                    &&& old(idempotency).clock().reads(now)
                    &&& is_opening(
                        lookup(
                            #[trigger] live(
                                old(idempotency)@,
                                old(idempotency).retention(),
                                old(idempotency).reservation_timeout(),
                                now,
                            ),
                            (user_id@, key@),
                            body@,
                        ),
                        r,
                    )
                    &&& final(idempotency)@ == after_begin(
                        live(
                            old(idempotency)@,
                            old(idempotency).retention(),
                            old(idempotency).reservation_timeout(),
                            now,
                        ),
                        (user_id@, key@),
                        body@,
                        now,
                    )
                },
            None => r is Run && final(idempotency)@ == old(idempotency)@,
        },
{
    match key {
        Some(key) => opening_of(idempotency.begin(user_id.as_str(), key.as_str(), body)),
        None => Opening::Run,
    }
}

/// What the payload of a create says, if there is one.
pub open spec fn payload_view(parsed: Option<ProfileInput>) -> Option<InputView> {
    match parsed {
        Some(input) => Some(input@),
        None => None,
    }
}

/// Takes the payload of a create, which is nothing where the body was not the
/// JSON of one.
pub fn accept_payload(parsed: Option<ProfileInput>) -> (r: Result<ProfileInput, ProfileError>)
    ensures
        match parsed {
            Some(input) => match input@.flaw() {
                Some(reason) => r == Err::<ProfileInput, _>(ProfileError::Invalid(reason)),
                None => r == Ok::<_, ProfileError>(input),
            },
            None => r == Err::<ProfileInput, _>(ProfileError::MalformedBody),
        },
{
    match parsed {
        Some(input) => match input.validate() {
            Ok(()) => Ok(input),
            Err(reason) => Err(ProfileError::Invalid(reason)),
        },
        None => Err(ProfileError::MalformedBody),
    }
}

/// How the creation of a profile is recorded.
pub open spec fn created_record(profile: ProfileView) -> RecordedView {
    RecordedView { status: 201, body: profile.json(), etag: Some(tag(profile.version)) }
}

/// Renders the outcome of a create in replayable form.
pub fn create_outcome(created: Result<Option<Arc<Profile>>, StoreError>) -> (r: Result<
    Recorded,
    ProfileError,
>)
    ensures
        match created {
            Ok(Some(profile)) => r matches Ok(recorded) && recorded@ == created_record(profile@),
            Ok(None) => r == Err::<Recorded, _>(ProfileError::AlreadyExists),
            Err(error) => r == Err::<Recorded, _>(ProfileError::Store(error)),
        },
{
    match created {
        Ok(Some(profile)) => Ok(
            Recorded {
                status: 201,
                body: profile.to_json(),
                etag: Some(profile.version.to_string()),
            },
        ),
        Ok(None) => Err(ProfileError::AlreadyExists),
        Err(error) => Err(ProfileError::Store(error)),
    }
}

/// Settles the key of a create that was run, and answers it.
///
/// A terminal outcome is recorded so the retry sees what the first caller saw.
/// Everything else releases the key: a transient fault must not permanently
/// consume it.
pub fn close_create(
    idempotency: &mut IdempotencyStore,
    user_id: &UserId,
    key: &Option<String>,
    body: &str,
    outcome: Result<Recorded, ProfileError>,
) -> (r: Result<Reply, ProfileError>)
    ensures
        final(idempotency).retention() == old(idempotency).retention(),
        final(idempotency).reservation_timeout() == old(idempotency).reservation_timeout(),
        final(idempotency).clock() == old(idempotency).clock(),
        match outcome {
            Ok(recorded) => r matches Ok(reply) && reply@ == replayed(recorded@),
            Err(error) => r == Err::<Reply, _>(error),
        },
        match (key, outcome) {
            (Some(key), Ok(recorded)) => exists|now: u128|
                old(idempotency).clock().reads(now) && final(idempotency)@
                    == #[trigger] after_finish(
                    old(idempotency)@,
                    (user_id@, key@),
                    body@,
                    recorded@,
                    now,
                ),
            (Some(key), Err(_)) => final(idempotency)@ == after_abandon(
                old(idempotency)@,
                (user_id@, key@),
            ),
            (None, _) => final(idempotency)@ == old(idempotency)@,
        },
{
    match outcome {
        Ok(recorded) => {
            let reply = replay(&recorded);
            if let Some(key) = key {
                idempotency.finish(user_id.as_str(), key.as_str(), body, recorded);
            }
            Ok(reply)
        },
        Err(error) => {
            if let Some(key) = key {
                idempotency.abandon(user_id.as_str(), key.as_str());
            }
            Err(error)
        },
    }
}

/// What running a create once leads to: `before` and `after` are what the store
/// holds. Only a create that succeeds changes anything; where the payload is
/// sound and there is no profile yet, only the store can fail it, if it can
/// fail at all.
pub open spec fn is_created(
    before: Histories,
    after: Histories,
    user: Seq<char>,
    parsed: Option<InputView>,
    outcome: Result<RecordedView, ProfileError>,
    can_fail: bool,
) -> bool {
    match outcome {
        Ok(recorded) => {
            &&& parsed matches Some(input) && input.flaw() is None
            &&& create_answer(before, user, parsed->0) matches Some(profile) && recorded
                == created_record(profile)
            &&& exists|now: u64|
                is_ms_reading(now) && after == #[trigger] after_create(before, user, parsed->0, now)
        },
        Err(error) => {
            &&& after == before
            &&& match error {
                ProfileError::MalformedBody => parsed is None,
                ProfileError::Invalid(reason) => parsed matches Some(input) && input.flaw() == Some(
                    reason,
                ),
                ProfileError::AlreadyExists => before.contains_key(user) && (parsed matches Some(
                    input,
                ) && input.flaw() is None),
                ProfileError::Store(fault) => fault is Backend && can_fail && (
                parsed matches Some(input) && input.flaw() is None),
                _ => false,
            }
        },
    }
}

/// What an outcome in replayable form says.
pub open spec fn outcome_view(outcome: Result<Recorded, ProfileError>) -> Result<
    RecordedView,
    ProfileError,
> {
    match outcome {
        Ok(recorded) => Ok(recorded@),
        Err(error) => Err(error),
    }
}

/// Performs one create, rendering the outcome in replayable form.
pub fn create_once<R: ProfileRepository>(
    profiles: &mut R,
    user_id: &UserId,
    parsed: Option<ProfileInput>,
) -> (r: Result<Recorded, ProfileError>)
    requires
        old(profiles).in_order(),
    ensures
        final(profiles).in_order(),
        final(profiles).can_fail() == old(profiles).can_fail(),
        is_created(
            old(profiles).histories(),
            final(profiles).histories(),
            user_id@,
            payload_view(parsed),
            outcome_view(r),
            old(profiles).can_fail(),
        ),
{
    let input = match accept_payload(parsed) {
        Ok(input) => input,
        Err(error) => {
            return Err(error);
        },
    };
    let created = profiles.create(user_id, input);
    create_outcome(created)
}

/// `POST /profile` — create the calling user's profile.
///
/// Honours `Idempotency-Key`. Without one a timed-out client that retries
/// cannot tell "my create succeeded" from "someone else created this", because
/// both are `409`. With one, the retry replays the original response.
///
/// `parsed` is the payload that `body` is the JSON of, if it is.
pub fn create<R: ProfileRepository>(
    profiles: &mut R,
    idempotency: &mut IdempotencyStore,
    user_id: &UserId,
    headers: &Vec<Header>,
    body: &str,
    parsed: Option<ProfileInput>,
) -> (r: Result<Reply, ProfileError>)
    requires
        old(profiles).in_order(),
    ensures
        final(profiles).in_order(),
        final(profiles).can_fail() == old(profiles).can_fail(),
        final(idempotency).retention() == old(idempotency).retention(),
        final(idempotency).reservation_timeout() == old(idempotency).reservation_timeout(),
        final(idempotency).clock() == old(idempotency).clock(),
        is_posted(
            headers_view(headers@),
            user_id@,
            body@,
            payload_view(parsed),
            old(profiles).histories(),
            final(profiles).histories(),
            old(idempotency)@,
            final(idempotency)@,
            old(idempotency).retention(),
            old(idempotency).reservation_timeout(),
            r,
            old(profiles).can_fail(),
            old(idempotency).clock(),
        ),
{
    let key = idempotency_key(headers);
    let ghost stored = old(profiles).histories();
    let ghost watch = old(idempotency).clock();
    match open_create(idempotency, user_id, &key, body) {
        Opening::Run => {},
        Opening::Answered(answer) => {
            return answer;
        },
    }
    let outcome = create_once(profiles, user_id, parsed);
    let ghost said = outcome_view(outcome);
    let ghost reserved = idempotency@;
    let answer = close_create(idempotency, user_id, &key, body, outcome);
    proof {
        let payload = payload_view(parsed);
        assert(is_created(
            stored,
            profiles.histories(),
            user_id@,
            payload,
            said,
            old(profiles).can_fail(),
        ));
        assert(is_answered(said, answer));
        if let Some(key) = key {
            let now = choose|now: u128|
                {
                    let known = #[trigger] live(
                        old(idempotency)@,
                        old(idempotency).retention(),
                        old(idempotency).reservation_timeout(),
                        now,
                    );
                    watch.reads(now) && lookup(known, (user_id@, key@), body@) is Reserved
                        && reserved == after_begin(
                        known,
                        (user_id@, key@),
                        body@,
                        now,
                    )
                };
            let known = live(
                old(idempotency)@,
                old(idempotency).retention(),
                old(idempotency).reservation_timeout(),
                now,
            );
            assert(lookup(known, (user_id@, key@), body@) is Reserved);
            assert(reserved == after_begin(known, (user_id@, key@), body@, now));
            assert(is_settled(reserved, (user_id@, key@), body@, said, idempotency@, watch));
            assert(is_keyed_create(
                known,
                (user_id@, key@),
                body@,
                now,
                stored,
                profiles.histories(),
                payload,
                answer,
                idempotency@,
                old(profiles).can_fail(),
                watch,
            ));
        }
    }
    answer
}

/// Whether a create that ran to `outcome` is answered by `answer`.
pub open spec fn is_answered(
    outcome: Result<RecordedView, ProfileError>,
    answer: Result<Reply, ProfileError>,
) -> bool {
    match outcome {
        Ok(recorded) => answer matches Ok(reply) && reply@ == replayed(recorded),
        Err(error) => answer == Err::<Reply, _>(error),
    }
}

/// Whether a key that a create ran to `outcome` under is settled: `before` and
/// `after` are what is known of every key.
pub open spec fn is_settled(
    before: Entries,
    name: (Seq<char>, Seq<char>),
    body: Seq<char>,
    outcome: Result<RecordedView, ProfileError>,
    after: Entries,
    clock: Stopwatch,
) -> bool {
    match outcome {
        Ok(recorded) => exists|ended: u128|
            clock.reads(ended) && after == #[trigger] after_finish(
                before,
                name,
                body,
                recorded,
                ended,
            ),
        Err(_) => after == after_abandon(before, name),
    }
}

/// What a create with a key leads to, where `known` is what is known of every
/// key when it starts: the work is run exactly where the key was not known, and
/// its outcome is recorded, or the key released; otherwise nothing changes.
pub open spec fn is_keyed_create(
    known: Entries,
    name: (Seq<char>, Seq<char>),
    body: Seq<char>,
    now: u128,
    before: Histories,
    after: Histories,
    parsed: Option<InputView>,
    answer: Result<Reply, ProfileError>,
    entries: Entries,
    can_fail: bool,
    clock: Stopwatch,
) -> bool {
    if lookup(known, name, body) is Reserved {
        exists|outcome: Result<RecordedView, ProfileError>|
            {
                &&& is_created(before, after, name.0, parsed, outcome, can_fail)
                &&& #[trigger] is_answered(outcome, answer)
                &&& is_settled(
                    after_begin(known, name, body, now),
                    name,
                    body,
                    outcome,
                    entries,
                    clock,
                )
            }
    } else {
        &&& after == before
        &&& entries == known
        &&& is_opening(lookup(known, name, body), Opening::Answered(answer))
    }
}

/// What a `POST` leads to, from the headers on: `before` and `after` are what the
/// profile store holds, `known` and `left` what is known of every key, and each
/// time is one that `clock` reads.
pub open spec fn is_posted(
    headers: Seq<HeaderView>,
    user: Seq<char>,
    body: Seq<char>,
    parsed: Option<InputView>,
    before: Histories,
    after: Histories,
    known: Entries,
    left: Entries,
    retention: Span,
    timeout: Span,
    answer: Result<Reply, ProfileError>,
    can_fail: bool,
    clock: Stopwatch,
) -> bool {
    match key_of(headers) {
        Some(key) => exists|now: u128|
            {
                let counting = #[trigger] live(known, retention, timeout, now);
                clock.reads(now) && is_keyed_create(
                    counting,
                    (user, key),
                    body,
                    now,
                    before,
                    after,
                    parsed,
                    answer,
                    left,
                    can_fail,
                    clock,
                )
            },
        None => left == known && exists|outcome: Result<RecordedView, ProfileError>|
            #[trigger] is_created(before, after, user, parsed, outcome, can_fail) && is_answered(
                outcome,
                answer,
            ),
    }
}

/// A retried create gets the original response: once a create with a key has
/// succeeded, the same request under the same key is answered alike for as long
/// as the outcome is retained, and runs nothing.
pub proof fn law_a_retry_gets_the_original_response(
    known: Entries,
    name: (Seq<char>, Seq<char>),
    body: Seq<char>,
    now: u128,
    before: Histories,
    after: Histories,
    parsed: Option<InputView>,
    answer: Result<Reply, ProfileError>,
    entries: Entries,
    retention: Span,
    timeout: Span,
    then: u128,
    later: Histories,
    retried: Result<Reply, ProfileError>,
    left: Entries,
    can_fail: bool,
    clock: Stopwatch,
)
    requires
        is_keyed_create(
            known,
            name,
            body,
            now,
            before,
            after,
            parsed,
            answer,
            entries,
            can_fail,
            clock,
        ),
        lookup(known, name, body) is Reserved,
        answer is Ok,
        live(entries, retention, timeout, then).contains_key(name),
        is_keyed_create(
            live(entries, retention, timeout, then),
            name,
            body,
            then,
            after,
            later,
            parsed,
            retried,
            left,
            can_fail,
            clock,
        ),
    ensures
        retried is Ok,
        retried->Ok_0@ == answer->Ok_0@,
        later == after,
{
}

/// A create that failed releases its key: the same request may be run again at
/// once.
pub proof fn law_a_failed_create_may_be_retried(
    known: Entries,
    name: (Seq<char>, Seq<char>),
    body: Seq<char>,
    now: u128,
    before: Histories,
    after: Histories,
    parsed: Option<InputView>,
    answer: Result<Reply, ProfileError>,
    entries: Entries,
    other_body: Seq<char>,
    can_fail: bool,
    clock: Stopwatch,
)
    requires
        is_keyed_create(
            known,
            name,
            body,
            now,
            before,
            after,
            parsed,
            answer,
            entries,
            can_fail,
            clock,
        ),
        lookup(known, name, body) is Reserved,
        answer is Err,
    ensures
        lookup(entries, name, other_body) is Reserved,
        after == before,
{
}

/// The response that a profile is served with.
pub open spec fn profile_reply(profile: ProfileView) -> ReplyView {
    json_reply(200, Some(("etag"@, tag(profile.version))), profile.json())
}

/// Attaches the profile's version as an `ETag`, so the client's next `PUT` can
/// quote it back without guessing.
fn with_etag(profile: &Profile) -> (r: Reply)
    ensures
        r@ == profile_reply(profile@),
{
    Reply::json_with(200, "etag", profile.version.to_string().as_str(), profile.to_json())
}

/// Answers a read, given what the store found.
pub fn read_outcome(found: Result<Option<Arc<Profile>>, StoreError>) -> (r: Result<
    Reply,
    ProfileError,
>)
    ensures
        match found {
            Ok(Some(profile)) => r matches Ok(reply) && reply@ == profile_reply(profile@),
            Ok(None) => r == Err::<Reply, _>(ProfileError::NotFound),
            Err(error) => r == Err::<Reply, _>(ProfileError::Store(error)),
        },
{
    match found {
        Ok(Some(profile)) => Ok(with_etag(&*profile)),
        Ok(None) => Err(ProfileError::NotFound),
        Err(error) => Err(ProfileError::Store(error)),
    }
}

/// `GET /profile` — read the calling user's profile.
pub fn read<R: ProfileRepository>(profiles: &R, user_id: &UserId) -> (r: Result<
    Reply,
    ProfileError,
>)
    requires
        profiles.in_order(),
    ensures
        match r {
            Ok(reply) => current(profiles.histories(), user_id@) matches Some(profile) && reply@
                == profile_reply(profile),
            Err(ProfileError::NotFound) => current(profiles.histories(), user_id@) is None,
            Err(error) => error matches ProfileError::Store(fault) && fault is Backend
                && profiles.can_fail(),
        },
{
    read_outcome(profiles.get(user_id))
}

/// The version that an `If-Match` header quotes: nothing where there is no such
/// header, and nothing inside where its value is no version.
pub open spec fn if_match(headers: Seq<HeaderView>) -> Option<Option<u64>> {
    match header_value(headers, "if-match"@) {
        Some(value) => match value_text(value) {
            Some(text) => Some(version_of(text)),
            None => Some(None),
        },
        None => None,
    }
}

/// What an `If-Match` header asks for.
pub open spec fn is_if_match(headers: Seq<HeaderView>, asked: Result<Version, ProfileError>) -> bool {
    match if_match(headers) {
        Some(Some(counter)) => asked == Ok::<_, ProfileError>(Version(counter)),
        Some(None) => asked == Err::<Version, _>(ProfileError::MalformedPrecondition),
        None => asked == Err::<Version, _>(ProfileError::PreconditionRequired),
    }
}

/// Reads the version out of an `If-Match` header.
///
/// The accepted syntax is [`Version`]'s own, so this and the `ETag` it
/// round-trips from cannot disagree.
pub fn parse_if_match(headers: &Vec<Header>) -> (r: Result<Version, ProfileError>)
    ensures
        is_if_match(headers_view(headers@), r),
{
    match find_header(headers, "if-match") {
        Some(value) => match to_text(value) {
            Some(text) => match Version::from_str(text.as_str()) {
                Ok(version) => Ok(version),
                Err(_) => Err(ProfileError::MalformedPrecondition),
            },
            None => Err(ProfileError::MalformedPrecondition),
        },
        None => Err(ProfileError::PreconditionRequired),
    }
}

/// What a `PUT` asks for: the precondition is read first, then the payload.
pub open spec fn is_update_request(
    headers: Seq<HeaderView>,
    input: InputView,
    asked: Result<Version, ProfileError>,
) -> bool {
    match (if_match(headers), input.flaw()) {
        (Some(Some(_)), Some(reason)) => asked == Err::<Version, _>(ProfileError::Invalid(reason)),
        _ => is_if_match(headers, asked),
    }
}

/// Checks a `PUT` before the store is asked: the version it means to replace.
pub fn update_request(headers: &Vec<Header>, input: &ProfileInput) -> (r: Result<
    Version,
    ProfileError,
>)
    ensures
        is_update_request(headers_view(headers@), input@, r),
{
    let expected = match parse_if_match(headers) {
        Ok(expected) => expected,
        Err(error) => {
            return Err(error);
        },
    };
    match input.validate() {
        Ok(()) => Ok(expected),
        Err(reason) => Err(ProfileError::Invalid(reason)),
    }
}

/// Answers an update, given what the store made of it.
pub fn update_outcome(updated: Result<Update, StoreError>) -> (r: Result<Reply, ProfileError>)
    ensures
        match updated {
            Ok(Update::Applied(profile)) => r matches Ok(reply) && reply@ == profile_reply(
                profile@,
            ),
            Ok(Update::Stale { current_version }) => r == Err::<Reply, _>(
                ProfileError::PreconditionFailed { current_version },
            ),
            Ok(Update::Missing) => r == Err::<Reply, _>(ProfileError::NotFound),
            Err(error) => r == Err::<Reply, _>(ProfileError::Store(error)),
        },
{
    match updated {
        Ok(Update::Applied(profile)) => Ok(with_etag(&*profile)),
        Ok(Update::Stale { current_version }) => Err(
            ProfileError::PreconditionFailed { current_version },
        ),
        Ok(Update::Missing) => Err(ProfileError::NotFound),
        Err(error) => Err(ProfileError::Store(error)),
    }
}

/// `PUT /profile` — replace the calling user's profile, if unchanged.
///
/// Requires `If-Match` carrying the version the caller believes it is
/// replacing. Without it a client cannot express "I intend to overwrite exactly
/// what I read", and a lost update becomes indistinguishable from a successful
/// one, so the header is mandatory rather than optional.
pub fn update<R: ProfileRepository>(
    profiles: &mut R,
    user_id: &UserId,
    headers: &Vec<Header>,
    input: ProfileInput,
) -> (r: Result<Reply, ProfileError>)
    requires
        old(profiles).in_order(),
    ensures
        final(profiles).in_order(),
        final(profiles).can_fail() == old(profiles).can_fail(),
        is_updated(
            old(profiles).histories(),
            final(profiles).histories(),
            user_id@,
            headers_view(headers@),
            input@,
            r,
            old(profiles).can_fail(),
        ),
{
    let expected = match update_request(headers, &input) {
        Ok(expected) => expected,
        Err(error) => {
            return Err(error);
        },
    };
    let updated = profiles.update(user_id, expected, input);
    update_outcome(updated)
}

/// What a `PUT` leads to: `before` and `after` are what the store holds. Only a
/// write that quotes the current version changes anything; a stale one is told
/// which version won.
pub open spec fn is_updated(
    before: Histories,
    after: Histories,
    user: Seq<char>,
    headers: Seq<HeaderView>,
    input: InputView,
    answer: Result<Reply, ProfileError>,
    can_fail: bool,
) -> bool {
    match answer {
        Ok(reply) => exists|expected: Version|
            {
                &&& #[trigger] is_update_request(headers, input, Ok(expected))
                &&& is_applied(before, user, expected.0)
                &&& reply@ == profile_reply(
                    projection(user, accepted((expected.0 + 1) as u64, input, 0)),
                )
                &&& exists|now: u64|
                    is_ms_reading(now) && after == #[trigger] after_update(
                        before,
                        user,
                        expected.0,
                        input,
                        now,
                    )
            },
        Err(ProfileError::PreconditionFailed { current_version }) => {
            &&& after == before
            &&& exists|expected: Version|
                {
                    &&& #[trigger] is_update_request(headers, input, Ok(expected))
                    &&& expected != current_version
                    &&& current(before, user) matches Some(profile) && profile.version
                        == current_version.0
                }
        },
        Err(ProfileError::NotFound) => {
            &&& after == before
            &&& current(before, user) is None
            &&& exists|expected: Version| #[trigger]
                is_update_request(headers, input, Ok(expected))
        },
        Err(ProfileError::Store(fault)) => {
            &&& after == before
            &&& exists|expected: Version|
                {
                    &&& #[trigger] is_update_request(headers, input, Ok(expected))
                    &&& if fault is VersionExhausted {
                        expected.0 >= LAST_PORTABLE && (current(before, user) matches Some(profile)
                            && profile.version == expected.0)
                    } else {
                        can_fail
                    }
                }
        },
        Err(error) => after == before && is_update_request(headers, input, Err(error)),
    }
}

/// What a `PUT` is answered: `428` without `If-Match`, whatever the payload;
/// `422` where the payload is flawed; `412` with the winning version where the
/// quoted one is stale; and `200` with the next version where it is current.
/// Nothing changes but in the last case. Only a store that can fail, or a
/// counter that cannot advance, comes between.
pub proof fn law_update_status_codes(
    before: Histories,
    after: Histories,
    user: Seq<char>,
    headers: Seq<HeaderView>,
    input: InputView,
    answer: Result<Reply, ProfileError>,
    stored: u64,
    quoted: u64,
)
    requires
        is_updated(before, after, user, headers, input, answer, false),
        current(before, user) matches Some(profile) && profile.version == stored,
    ensures
        header_value(headers, "if-match"@) is None ==> answer is Err && answer->Err_0.status()
            == 428 && after == before,
        if_match(headers) == Some(Some(quoted)) && input.flaw() is Some ==> answer is Err
            && answer->Err_0.status() == 422 && after == before,
        if_match(headers) == Some(Some(quoted)) && input.flaw() is None && quoted != stored
            ==> answer is Err && answer->Err_0.reply() == json_reply(
            412,
            Some(("etag"@, tag(stored))),
            error_json(answer->Err_0.code(), answer->Err_0.message()),
        ) && after == before,
        if_match(headers) == Some(Some(quoted)) && input.flaw() is None && quoted == stored
            && quoted < LAST_PORTABLE ==> answer is Ok && answer->Ok_0@.status == 200
            && answer->Ok_0@.headers[1] == ("etag"@, tag((stored + 1) as u64)),
{
}

/// What a `POST` is answered: `201` with the first version where there is no
/// profile yet, and `409` where there is one, which stays as it is. Only a
/// store that can fail comes between.
pub proof fn law_create_status_codes(
    before: Histories,
    after: Histories,
    user: Seq<char>,
    input: InputView,
    outcome: Result<RecordedView, ProfileError>,
    answer: Result<Reply, ProfileError>,
)
    requires
        is_created(before, after, user, Some(input), outcome, false),
        is_answered(outcome, answer),
        input.flaw() is None,
    ensures
        !before.contains_key(user) ==> answer is Ok && answer->Ok_0@.status == 201
            && answer->Ok_0@.headers[1] == ("etag"@, tag(INITIAL)) && current(after, user) is Some,
        before.contains_key(user) ==> answer is Err && answer->Err_0.status() == 409 && after
            == before,
{
    lemma_tag_is_header_safe(INITIAL);
}

/// The entity tag of a version can stand in a header.
proof fn lemma_tag_is_header_safe(counter: u64)
    ensures
        is_header_safe(tag(counter)),
{
    lemma_decimal(counter as nat);
    let digits = decimal(counter as nat);
    assert forall|i: int| 0 <= i < tag(counter).len() implies is_header_char(
        #[trigger] tag(counter)[i],
    ) by {
        if 1 <= i <= digits.len() {
            assert(tag(counter)[i] == digits[i - 1]);
            assert(is_digit(digits[i - 1]));
        }
    }
}

/// The JSON of revisions, one after another.
pub open spec fn revisions_json(history: Seq<RevisionView>) -> Seq<char>
    decreases history.len(),
{
    if history.len() == 0 {
        Seq::empty()
    } else if history.len() == 1 {
        history[0].json()
    } else {
        revisions_json(history.drop_last()) + ","@ + history.last().json()
    }
}

/// The response that a history is served with.
pub open spec fn history_reply(history: Seq<RevisionView>) -> ReplyView {
    json_reply(200, None, "["@ + revisions_json(history) + "]"@)
}

/// Answers a read of the audit view, given what the store found.
pub fn history_outcome(found: Result<Vec<Revision>, StoreError>) -> (r: Result<
    Reply,
    ProfileError,
>)
    ensures
        match found {
            Ok(revisions) => if revisions@.len() == 0 {
                r == Err::<Reply, _>(ProfileError::NotFound)
            } else {
                r matches Ok(reply) && reply@ == history_reply(history_view(revisions@))
            },
            Err(error) => r == Err::<Reply, _>(ProfileError::Store(error)),
        },
{
    let revisions = match found {
        Ok(revisions) => revisions,
        Err(error) => {
            return Err(ProfileError::Store(error));
        },
    };
    if revisions.len() == 0 {
        return Err(ProfileError::NotFound);
    }
    let ghost history = history_view(revisions@);
    let mut body: String = "[".to_owned();
    let mut i: usize = 0;
    while i < revisions.len()
        invariant
            i <= revisions.len(),
            history == history_view(revisions@),
            body@ == "["@ + revisions_json(history.take(i as int)),
        decreases revisions.len() - i,
    {
        let ghost shown = history.take(i + 1);
        assert(shown.drop_last() =~= history.take(i as int));
        assert(shown.last() == revisions@[i as int]@);
        if i > 0 {
            body.append(",");
        }
        body.append(revisions[i].to_json().as_str());
        assert(body@ =~= "["@ + revisions_json(shown));
        i = i + 1;
    }
    assert(history.take(i as int) =~= history);
    body.append("]");
    Ok(Reply::json(200, body))
}

/// `GET /profile/history` — every accepted revision, oldest first.
///
/// The audit view. A profile is a projection of its revisions, so this is the
/// underlying record rather than a derived report: an address change is a fraud
/// and KYC signal, and the prior value is evidence.
pub fn history<R: ProfileRepository>(profiles: &R, user_id: &UserId) -> (r: Result<
    Reply,
    ProfileError,
>)
    requires
        profiles.in_order(),
    ensures
        match r {
            Ok(reply) => history_of(profiles.histories(), user_id@).len() > 0 && reply@
                == history_reply(history_of(profiles.histories(), user_id@)),
            Err(ProfileError::NotFound) => history_of(profiles.histories(), user_id@).len() == 0,
            Err(error) => error matches ProfileError::Store(fault) && fault is Backend
                && profiles.can_fail(),
        },
{
    history_outcome(profiles.history(user_id))
}

/// `GET /health` — deliberately outside the internal-token check.
///
/// An orchestrator probing liveness is not the gateway and holds no shared
/// secret. A probe that can fail for authorization reasons reports the wrong
/// thing, and would take a healthy instance out of service on a token rotation.
pub fn health() -> (r: Reply)
    ensures
        r@ == json_reply(200, None, "{\"status\":\"ok\"}"@),
{
    Reply::json(200, "{\"status\":\"ok\"}".to_owned())
}

/// The items of a list of revisions are the revisions.
proof fn lemma_revisions_are_items(history: Seq<RevisionView>)
    requires
        history.len() > 0,
    ensures
        parts(revisions_json(history)) == Seq::new(history.len(), |i: int| history[i].json()),
        read_on(outside(), revisions_json(history)) == outside(),
    decreases history.len(),
{
    reveal_strlit(",");
    lemma_revision_is_one_item(history.last());
    let items = Seq::new(history.len(), |i: int| history[i].json());
    if history.len() == 1 {
        lemma_whole_is_one_part(history[0].json());
        assert(items =~= seq![history[0].json()]);
    } else {
        let before = history.drop_last();
        lemma_revisions_are_items(before);
        lemma_comma_parts(revisions_json(before), history.last().json());
        assert(","@ =~= seq![',']);
        let known = Seq::new(before.len(), |i: int| before[i].json());
        assert(known.push(history.last().json()) =~= items);
    }
}

/// The body of a history reads back to the history: as JSON it is an array whose
/// items are its revisions, every one of them, oldest first.
pub proof fn law_history_reads_back(history: Seq<RevisionView>)
    requires
        history.len() > 0,
    ensures
        history_reply(history).status == 200,
        items_read(history_reply(history).body) == Some(
            Seq::new(history.len(), |i: int| history[i].json()),
        ),
{
    lemma_revisions_are_items(history);
    reveal_strlit("[");
    reveal_strlit("]");
    let body = history_reply(history).body;
    assert(body.subrange(1, body.len() - 1) =~= revisions_json(history));
}

/// A history that grows by one revision is served with one more object, behind a
/// comma, and else as before.
pub proof fn law_history_grows_at_its_end(history: Seq<RevisionView>, revision: RevisionView)
    requires
        history.len() > 0,
    ensures
        revisions_json(history.push(revision)) == revisions_json(history) + seq![',']
            + revision.json(),
        revisions_json(seq![revision]) == revision.json(),
{
    reveal_strlit(",");
    assert(history.push(revision).drop_last() =~= history);
    assert(","@ =~= seq![',']);
}

/// Every key counts: where the first `Idempotency-Key` header holds visible ASCII
/// and is not empty, the key is its text, character by byte, however long it is;
/// an empty one, one that is no text, and none at all are no key.
pub proof fn law_every_key_counts(headers: Seq<HeaderView>, value: Seq<u8>, key: Seq<char>)
    ensures
        header_value(headers, "idempotency-key"@) is None ==> key_of(headers) is None,
        header_value(headers, "idempotency-key"@) == Some(value) ==> (key_of(headers) is Some <==> {
            &&& value.len() > 0
            &&& forall|i: int|
                0 <= i < value.len() ==> #[trigger] value[i] == 9 || 32 <= value[i] <= 126
        }),
        header_value(headers, "idempotency-key"@) == Some(value) && key_of(headers) is Some
            ==> key_of(headers)->0.len() == value.len() && (forall|i: int|
            0 <= i < value.len() ==> #[trigger] key_of(headers)->0[i] as int == value[i] as int),
        header_text(headers, "idempotency-key"@) == Some(key) && key.len() > 0 ==> key_of(headers)
            == Some(key),
{
    law_visible_values_are_text(value);
}

/// A retried `POST` gets the original response, said of the requests themselves:
/// where both carry the same key in their first `Idempotency-Key` header, and it
/// holds visible ASCII and is not empty, and the key was not known before, then
/// once the first was answered with success the second is answered alike, runs
/// nothing, and changes no key, for as long as the clock reads less than the
/// retention on from any of its readings.
pub proof fn law_a_retried_post_gets_the_original_response(
    headers: Seq<HeaderView>,
    again: Seq<HeaderView>,
    value: Seq<u8>,
    key: Seq<char>,
    user: Seq<char>,
    body: Seq<char>,
    parsed: Option<InputView>,
    before: Histories,
    after: Histories,
    later: Histories,
    known: Entries,
    left: Entries,
    rest: Entries,
    retention: Span,
    timeout: Span,
    answer: Result<Reply, ProfileError>,
    retried: Result<Reply, ProfileError>,
    can_fail: bool,
    clock: Stopwatch,
)
    requires
        header_value(headers, "idempotency-key"@) == Some(value),
        header_value(again, "idempotency-key"@) == Some(value),
        value.len() > 0,
        forall|i: int| 0 <= i < value.len() ==> #[trigger] value[i] == 9 || 32 <= value[i] <= 126,
        key.len() == value.len(),
        forall|i: int| 0 <= i < key.len() ==> #[trigger] key[i] as int == value[i] as int,
        !known.contains_key((user, key)),
        forall|a: u128, b: u128| #[trigger]
            clock.reads(a) && #[trigger] clock.reads(b) ==> b < a + retention.nanos,
        is_posted(
            headers,
            user,
            body,
            parsed,
            before,
            after,
            known,
            left,
            retention,
            timeout,
            answer,
            can_fail,
            clock,
        ),
        answer is Ok,
        is_posted(
            again,
            user,
            body,
            parsed,
            after,
            later,
            left,
            rest,
            retention,
            timeout,
            retried,
            can_fail,
            clock,
        ),
    ensures
        retried is Ok,
        retried->Ok_0@ == answer->Ok_0@,
        later == after,
        rest.contains_key((user, key)),
        rest[(user, key)] == left[(user, key)],
{
    law_every_key_counts(headers, value, key);
    law_every_key_counts(again, value, key);
    assert(key_of(headers)->0 =~= key);
    assert(key_of(again)->0 =~= key);
}

/// A `POST` without a key, or with one that no request has used, is run: it is
/// answered `201` where there is no profile yet, and `409` where there is one,
/// unless the payload is flawed or the store fails.
pub proof fn law_an_unknown_key_runs_the_post(
    headers: Seq<HeaderView>,
    user: Seq<char>,
    body: Seq<char>,
    input: InputView,
    before: Histories,
    after: Histories,
    known: Entries,
    left: Entries,
    retention: Span,
    timeout: Span,
    answer: Result<Reply, ProfileError>,
    clock: Stopwatch,
)
    requires
        is_posted(
            headers,
            user,
            body,
            Some(input),
            before,
            after,
            known,
            left,
            retention,
            timeout,
            answer,
            false,
            clock,
        ),
        key_of(headers) matches Some(key) ==> !known.contains_key((user, key)),
        input.flaw() is None,
    ensures
        key_of(headers) is None ==> left == known,
        before.contains_key(user) ==> after == before && answer is Err
            && answer->Err_0.status() == 409,
        !before.contains_key(user) ==> {
            &&& answer is Ok
            &&& answer->Ok_0@.status == 201
            &&& after.contains_key(user)
            &&& after.remove(user) == before
            &&& after[user].len() == 1
            &&& after[user][0].version == 1
            &&& after[user][0].address == input.address
            &&& after[user][0].phone_number == input.phone_number
            &&& is_ms_reading(after[user][0].recorded_at_ms)
            &&& answer->Ok_0@.body == (ProfileView {
                user_id: user,
                address: input.address,
                phone_number: input.phone_number,
                version: 1,
            }).json()
            &&& answer->Ok_0@.headers == seq![
                ("content-type"@, "application/json"@),
                ("etag"@, tag(1)),
            ]
        },
{
    lemma_tag_is_header_safe(1);
    let outcome = match key_of(headers) {
        Some(key) => {
            let now = choose|now: u128|
                {
                    let counting = #[trigger] live(known, retention, timeout, now);
                    clock.reads(now) && is_keyed_create(
                        counting,
                        (user, key),
                        body,
                        now,
                        before,
                        after,
                        Some(input),
                        answer,
                        left,
                        false,
                        clock,
                    )
                };
            let counting = live(known, retention, timeout, now);
            choose|outcome: Result<RecordedView, ProfileError>|
                {
                    &&& is_created(before, after, user, Some(input), outcome, false)
                    &&& #[trigger] is_answered(outcome, answer)
                    &&& is_settled(
                        after_begin(counting, (user, key), body, now),
                        (user, key),
                        body,
                        outcome,
                        left,
                        clock,
                    )
                }
        },
        None => choose|outcome: Result<RecordedView, ProfileError>|
            #[trigger] is_created(before, after, user, Some(input), outcome, false)
                && is_answered(outcome, answer),
    };
    assert(is_created(before, after, user, Some(input), outcome, false));
    assert(is_answered(outcome, answer));
    if !before.contains_key(user) {
        assert(after.remove(user) =~= before);
    }
}

/// A key that counts keeps a `POST` from running: one with another body is told
/// that the key is reused, and one with the same body that it is still in flight,
/// or what was recorded. Nothing changes.
pub proof fn law_a_known_key_keeps_a_post_from_running(
    counting: Entries,
    name: (Seq<char>, Seq<char>),
    body: Seq<char>,
    now: u128,
    before: Histories,
    after: Histories,
    parsed: Option<InputView>,
    answer: Result<Reply, ProfileError>,
    left: Entries,
    can_fail: bool,
    clock: Stopwatch,
)
    requires
        is_keyed_create(
            counting,
            name,
            body,
            now,
            before,
            after,
            parsed,
            answer,
            left,
            can_fail,
            clock,
        ),
        counting.contains_key(name),
    ensures
        after == before,
        left == counting,
        counting[name] matches EntryView::InFlight { fingerprint, .. } ==> answer == Err::<Reply, _>(
            if fingerprint == fingerprint_of(body) {
                ProfileError::IdempotencyInFlight
            } else {
                ProfileError::IdempotencyReused
            },
        ),
        counting[name] matches EntryView::Complete { fingerprint, recorded, .. } ==> (if fingerprint
            == fingerprint_of(body) {
            answer matches Ok(reply) && reply@ == replayed(recorded)
        } else {
            answer == Err::<Reply, _>(ProfileError::IdempotencyReused)
        }),
{
}

/// A recorded outcome is served as it was recorded: its status, its body, and its
/// `ETag`, as long as that holds no control character but the tab.
pub proof fn law_outcomes_are_served_verbatim(recorded: RecordedView)
    ensures
        recorded.etag is None ==> replayed(recorded).headers == seq![
            ("content-type"@, "application/json"@),
        ],
        recorded.etag matches Some(etag) && (forall|i: int|
            0 <= i < etag.len() ==> (32 <= #[trigger] etag[i] as u32 && etag[i] as u32 != 127)
                || etag[i] as u32 == 9) ==> replayed(recorded).headers == seq![
            ("content-type"@, "application/json"@),
            ("etag"@, recorded.etag->0),
        ],
        replayed(recorded).headers.len() > 0 ==> {
            &&& replayed(recorded).body == recorded.body
            &&& 100 <= recorded.status <= 999 ==> replayed(recorded).status == recorded.status
            &&& !(100 <= recorded.status <= 999) ==> replayed(recorded).status == 201
        },
        replayed(recorded).headers.len() == 0 ==> replayed(recorded).status == 500
            && replayed(recorded).body.len() == 0 && recorded.etag is Some && exists|i: int|
            0 <= i < recorded.etag->0.len() && {
                let c = #[trigger] recorded.etag->0[i] as u32;
                (c < 32 && c != 9) || c == 127
            },
{
    if let Some(etag) = recorded.etag {
        if forall|i: int|
            0 <= i < etag.len() ==> (32 <= #[trigger] etag[i] as u32 && etag[i] as u32 != 127)
                || etag[i] as u32 == 9 {
            assert forall|i: int| 0 <= i < etag.len() implies is_header_char(#[trigger] etag[i]) by {}
        }
        if !is_header_safe(etag) {
            let i = choose|i: int| 0 <= i < etag.len() && !is_header_char(#[trigger] etag[i]);
            let c = recorded.etag->0[i] as u32;
            assert((c < 32 && c != 9) || c == 127);
        } else {
            assert forall|i: int| 0 <= i < etag.len() implies (32 <= #[trigger] etag[i] as u32
                && etag[i] as u32 != 127) || etag[i] as u32 == 9 by {
                assert(is_header_char(etag[i]));
            }
        }
    }
}

/// A profile is served whole, under the tag of its version.
pub proof fn law_profiles_are_served_whole(profile: ProfileView)
    ensures
        profile_reply(profile).status == 200,
        profile_reply(profile).body == profile.json(),
        profile_reply(profile).headers == seq![
            ("content-type"@, "application/json"@),
            ("etag"@, tag(profile.version)),
        ],
{
}

/// The tag that a profile was served under is what a `PUT` quotes to replace it,
/// with any white space round it; a header that is no text, or whose text is no
/// version, quotes none.
pub proof fn law_served_tags_are_quoted_back(headers: Seq<HeaderView>, counter: u64)
    ensures
        header_value(headers, "if-match"@) is None <==> if_match(headers) is None,
        header_text(headers, "if-match"@) == Some(tag(counter)) ==> if_match(headers) == Some(
            Some(counter),
        ),
        header_text(headers, "if-match"@) matches Some(text) ==> if_match(headers) == Some(
            version_of(text),
        ),
        header_value(headers, "if-match"@) is Some && header_text(headers, "if-match"@) is None
            ==> if_match(headers) == Some(None::<u64>),
{
    law_tag_reads_back(counter);
}

/// A `PUT` that succeeds writes what it was given, one version on, and nothing
/// else: the history grows by one revision at its end, other users' histories
/// stay, and the answer is the new profile under its new tag.
pub proof fn law_puts_write_what_they_are_given(
    before: Histories,
    after: Histories,
    user: Seq<char>,
    headers: Seq<HeaderView>,
    input: InputView,
    reply: Reply,
    quoted: u64,
    can_fail: bool,
)
    requires
        is_updated(before, after, user, headers, input, Ok(reply), can_fail),
        if_match(headers) == Some(Some(quoted)),
    ensures
        input.flaw() is None,
        before.contains_key(user),
        before[user].last().version == quoted,
        quoted < u64::MAX,
        after.contains_key(user),
        after.remove(user) == before.remove(user),
        after[user].len() == before[user].len() + 1,
        after[user].drop_last() == before[user],
        after[user].last().version == quoted + 1,
        after[user].last().address == input.address,
        after[user].last().phone_number == input.phone_number,
        is_ms_reading(after[user].last().recorded_at_ms),
        reply@.status == 200,
        reply@.body == (ProfileView {
            user_id: user,
            address: input.address,
            phone_number: input.phone_number,
            version: (quoted + 1) as u64,
        }).json(),
        reply@.headers == seq![
            ("content-type"@, "application/json"@),
            ("etag"@, tag((quoted + 1) as u64)),
        ],
{
    let expected = choose|expected: Version|
        {
            &&& #[trigger] is_update_request(headers, input, Ok(expected))
            &&& is_applied(before, user, expected.0)
            &&& reply@ == profile_reply(
                projection(user, accepted((expected.0 + 1) as u64, input, 0)),
            )
            &&& exists|now: u64|
                is_ms_reading(now) && after == #[trigger] after_update(
                    before,
                    user,
                    expected.0,
                    input,
                    now,
                )
        };
    assert(expected == Version(quoted));
    assert(after.remove(user) =~= before.remove(user));
    assert(after[user].drop_last() =~= before[user]);
}

/// What a `PUT` is answered where there is nothing to replace or nothing that
/// says what: `400` where `If-Match` is no version, whatever the payload, and
/// `404` where there is no profile. Nothing changes.
pub proof fn law_refused_puts_are_told_why(
    before: Histories,
    after: Histories,
    user: Seq<char>,
    headers: Seq<HeaderView>,
    input: InputView,
    answer: Result<Reply, ProfileError>,
    quoted: u64,
    can_fail: bool,
)
    requires
        is_updated(before, after, user, headers, input, answer, can_fail),
    ensures
        answer is Err ==> after == before,
        if_match(headers) == Some(None::<u64>) ==> answer == Err::<Reply, _>(
            ProfileError::MalformedPrecondition,
        ),
        if_match(headers) is None ==> answer == Err::<Reply, _>(ProfileError::PreconditionRequired),
        if_match(headers) == Some(Some(quoted)) && (input.flaw() matches Some(reason))
            ==> answer == Err::<Reply, _>(ProfileError::Invalid(input.flaw()->0)),
        if_match(headers) == Some(Some(quoted)) && input.flaw() is None && !before.contains_key(
            user,
        ) && !can_fail ==> answer == Err::<Reply, _>(ProfileError::NotFound),
{
}

/// What a payload and an outcome say is all of what they are: a payload that was
/// read is never taken for none, nor an outcome for another.
pub proof fn law_payloads_and_outcomes_are_seen_whole(
    parsed: Option<ProfileInput>,
    outcome: Result<Recorded, ProfileError>,
)
    ensures
        parsed is None <==> payload_view(parsed) is None,
        parsed matches Some(input) ==> payload_view(parsed) == Some(input@),
        outcome matches Ok(recorded) ==> (outcome_view(outcome) matches Ok(seen) && {
            &&& seen.status == recorded.status
            &&& seen.body == recorded.body@
            &&& seen.etag is Some <==> recorded.etag is Some
            &&& recorded.etag matches Some(etag) ==> seen.etag == Some(etag@)
        }),
        outcome matches Err(error) ==> outcome_view(outcome) == Err::<RecordedView, _>(error),
{
}

} // verus!
