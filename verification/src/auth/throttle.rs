//! Login throttling.
//!
//! Two limits with different jobs, because one control cannot do both.
//!
//! **Per-address**, answered with `429`. Bounds how fast any single source can
//! guess, regardless of which account it aims at. Safe to report honestly: the
//! response depends on the caller's address, not on whether a username exists.
//!
//! **Per-account**, answered with the *ordinary* `401`. Stops credential
//! stuffing against one account from a botnet, where no single address trips
//! the address limit.
//!
//! # The trap
//!
//! A per-account lockout is the classic way to reintroduce user enumeration.
//! Answer a locked account with `429` and an unknown one with `401`, and an
//! attacker learns which usernames are real by failing at them five times.
//! Answer both with `401` but skip the password verification on the locked
//! path, and the answer comes back in five milliseconds instead of fifty — the
//! same oracle, read off a stopwatch.
//!
//! So a throttled account gets the identical `401`, and the caller still pays
//! for a full verification (see [`crate::auth::login`]).

use crate::common::time::{is_within, within, Span, Stopwatch};
use vstd::hash_map::StringHashMap;
use vstd::prelude::*;

verus! {

/// What the throttle permits for one attempt.
#[derive(Debug, Clone, Copy, PartialEq, Eq, Structural)]
pub enum Verdict {
    /// Proceed normally.
    Allowed,
    /// The calling address has failed too often. Answer `429`; this reveals
    /// nothing about any account.
    AddressThrottled,
    /// This account has failed too often. Answer with the ordinary `401`, after
    /// doing the same work a real rejection would.
    AccountThrottled,
}

/// Failure counting for one key within a rolling window.
#[derive(Debug, Clone, Copy, PartialEq, Eq, Structural)]
pub struct Failures {
    /// How often the key failed in the window.
    pub count: u32,
    /// When the window started, by the throttle's clock.
    pub window_started: u128,
}

/// Failures by key.
pub type Counters = Map<Seq<char>, Failures>;

/// Whether `key` is over `limit` within the current window.
pub open spec fn is_over(
    counters: Counters,
    key: Seq<char>,
    limit: u32,
    window: Span,
    now: u128,
) -> bool {
    counters.contains_key(key) && within(counters[key].window_started, now, window)
        && counters[key].count >= limit
}

/// The counters once a stale one of `key` is forgotten.
pub open spec fn without_stale(counters: Counters, key: Seq<char>, window: Span, now: u128)
    -> Counters {
    if counters.contains_key(key) && !within(counters[key].window_started, now, window) {
        counters.remove(key)
    } else {
        counters
    }
}

/// What one more failure makes of the counter of `key`: a lapsed window, or
/// none, starts afresh.
pub open spec fn bumped(counters: Counters, key: Seq<char>, window: Span, now: u128) -> Failures {
    if counters.contains_key(key) && within(counters[key].window_started, now, window) {
        Failures { count: (counters[key].count + 1) as u32, ..counters[key] }
    } else {
        Failures { count: 1, window_started: now }
    }
}

/// Whether one more failure of `key` can be counted.
pub open spec fn has_room(counters: Counters, key: Seq<char>) -> bool {
    counters.contains_key(key) ==> counters[key].count < u32::MAX
}

/// Whether `key` is over `limit` within the current window, expiring a stale
/// one.
fn over(
    counters: &mut StringHashMap<Failures>,
    key: &str,
    limit: u32,
    window: Span,
    now: u128,
) -> (r: bool)
    ensures
        r == is_over(old(counters)@, key@, limit, window, now),
        final(counters)@ == without_stale(old(counters)@, key@, window, now),
{
    match counters.get(key) {
        Some(failures) => {
            if is_within(failures.window_started, now, window) {
                failures.count >= limit
            } else {
                counters.remove(key);
                false
            }
        },
        None => false,
    }
}

/// Adds one failure to `key`, starting a fresh window if the last has lapsed.
fn bump(counters: &mut StringHashMap<Failures>, key: &str, window: Span, now: u128)
    requires
        has_room(old(counters)@, key@),
    ensures
        final(counters)@ == old(counters)@.insert(key@, bumped(old(counters)@, key@, window, now)),
{
    let mut next = Failures { count: 1, window_started: now };
    if let Some(failures) = counters.get(key) {
        if is_within(failures.window_started, now, window) {
            next = Failures {
                count: failures.count + 1,
                window_started: failures.window_started,
            };
        }
    }
    counters.insert(key.to_owned(), next);
}

/// What a throttle knows, and its policy.
#[verifier::ext_equal]
pub struct ThrottleView {
    /// Failures by account.
    pub by_account: Counters,
    /// Failures by source address.
    pub by_address: Counters,
    /// Failures against one account before it is throttled.
    pub account_limit: u32,
    /// Failures from one address before it is throttled.
    pub address_limit: u32,
    /// How long failures are remembered.
    pub window: Span,
}

/// What an address says.
pub open spec fn address_view(address: Option<&str>) -> Option<Seq<char>> {
    match address {
        Some(address) => Some(address@),
        None => None,
    }
}

impl ThrottleView {
    /// What is permitted for an attempt: the address limit is evaluated first.
    pub open spec fn verdict(self, username: Seq<char>, address: Option<Seq<char>>, now: u128)
        -> Verdict {
        if address matches Some(address) && is_over(
            self.by_address,
            address,
            self.address_limit,
            self.window,
            now,
        ) {
            Verdict::AddressThrottled
        } else if is_over(self.by_account, username, self.account_limit, self.window, now) {
            Verdict::AccountThrottled
        } else {
            Verdict::Allowed
        }
    }

    /// What is known after an attempt was checked: counters that were looked at
    /// and have lapsed are forgotten.
    pub open spec fn after_check(self, username: Seq<char>, address: Option<Seq<char>>, now: u128)
        -> ThrottleView {
        ThrottleView {
            by_address: match address {
                Some(address) => without_stale(self.by_address, address, self.window, now),
                None => self.by_address,
            },
            by_account: if self.verdict(username, address, now) is AddressThrottled {
                self.by_account
            } else {
                without_stale(self.by_account, username, self.window, now)
            },
            ..self
        }
    }

    /// Whether one more failure can be counted against both keys.
    pub open spec fn can_count(self, username: Seq<char>, address: Option<Seq<char>>) -> bool {
        &&& has_room(self.by_account, username)
        &&& address matches Some(address) ==> has_room(self.by_address, address)
    }

    /// What is known after a failed attempt.
    pub open spec fn after_failure(
        self,
        username: Seq<char>,
        address: Option<Seq<char>>,
        now: u128,
    ) -> ThrottleView {
        ThrottleView {
            by_account: self.by_account.insert(
                username,
                bumped(self.by_account, username, self.window, now),
            ),
            by_address: match address {
                Some(address) => self.by_address.insert(
                    address,
                    bumped(self.by_address, address, self.window, now),
                ),
                None => self.by_address,
            },
            ..self
        }
    }

    /// What is known after a successful login. The address counter is
    /// deliberately *not* cleared: one success does not excuse nineteen
    /// failures from the same source, which is exactly the shape of a spray
    /// across many accounts.
    pub open spec fn after_success(self, username: Seq<char>) -> ThrottleView {
        ThrottleView { by_account: self.by_account.remove(username), ..self }
    }
}

/// Counts recent login failures per account and per source address.
pub struct LoginThrottle {
    by_account: StringHashMap<Failures>,
    by_address: StringHashMap<Failures>,
    account_limit: u32,
    address_limit: u32,
    window: Span,
    clock: Stopwatch,
}

impl View for LoginThrottle {
    type V = ThrottleView;

    closed spec fn view(&self) -> ThrottleView {
        ThrottleView {
            by_account: self.by_account@,
            by_address: self.by_address@,
            account_limit: self.account_limit,
            address_limit: self.address_limit,
            window: self.window,
        }
    }
}

impl LoginThrottle {
    /// Failures against one account before it is throttled.
    pub const DEFAULT_ACCOUNT_LIMIT: u32 = 5;

    /// Failures from one address before it is throttled. Higher than the
    /// account limit because an office or mobile network shares an address.
    pub const DEFAULT_ADDRESS_LIMIT: u32 = 20;

    /// How long failures are remembered, in seconds.
    pub const DEFAULT_WINDOW: u64 = 300;

    /// The clock that the throttle reads.
    pub closed spec fn clock(&self) -> Stopwatch {
        self.clock
    }

    /// Builds a throttle with the given policy.
    #[must_use]
    pub fn new(account_limit: u32, address_limit: u32, window: Span) -> (r: LoginThrottle)
        ensures
            r@ == (ThrottleView {
                by_account: Map::empty(),
                by_address: Map::empty(),
                account_limit,
                address_limit,
                window,
            }),
    {
        LoginThrottle {
            by_account: StringHashMap::new(),
            by_address: StringHashMap::new(),
            account_limit,
            address_limit,
            window,
            clock: Stopwatch::start(),
        }
    }

    /// Checks both limits for an attempt at `now`.
    pub fn check_at(&mut self, username: &str, address: Option<&str>, now: u128) -> (r: Verdict)
        ensures
            r == old(self)@.verdict(username@, address_view(address), now),
            final(self)@ == old(self)@.after_check(username@, address_view(address), now),
            final(self).clock() == old(self).clock(),
    {
        if let Some(address) = address {
            if over(&mut self.by_address, address, self.address_limit, self.window, now) {
                return Verdict::AddressThrottled;
            }
        }
        if over(&mut self.by_account, username, self.account_limit, self.window, now) {
            return Verdict::AccountThrottled;
        }
        Verdict::Allowed
    }

    /// Checks both limits for an attempt.
    ///
    /// The address limit is evaluated first: it is the one that can be reported
    /// honestly, and reporting it costs nothing.
    #[must_use]
    pub fn check(&mut self, username: &str, address: Option<&str>) -> (r: Verdict)
        ensures
            final(self).clock() == old(self).clock(),
            exists|now: u128|
                old(self).clock().reads(now) && r == #[trigger] old(self)@.verdict(
                    username@,
                    address_view(address),
                    now,
                ) && final(self)@ == old(self)@.after_check(
                    username@,
                    address_view(address),
                    now,
                ),
    {
        let now: u128 = self.clock.read();
        self.check_at(username, address, now)
    }

    /// Whether one more failure can be counted against both keys; it cannot
    /// once either counter is at its maximum.
    pub fn can_count(&self, username: &str, address: Option<&str>) -> (r: bool)
        ensures
            r == self@.can_count(username@, address_view(address)),
    {
        if let Some(failures) = self.by_account.get(username) {
            if failures.count == u32::MAX {
                return false;
            }
        }
        if let Some(address) = address {
            if let Some(failures) = self.by_address.get(address) {
                if failures.count == u32::MAX {
                    return false;
                }
            }
        }
        true
    }

    /// Records a failed attempt against both keys at `now`.
    pub fn record_failure_at(&mut self, username: &str, address: Option<&str>, now: u128)
        requires
            old(self)@.can_count(username@, address_view(address)),
        ensures
            final(self)@ == old(self)@.after_failure(username@, address_view(address), now),
            final(self).clock() == old(self).clock(),
    {
        bump(&mut self.by_account, username, self.window, now);
        if let Some(address) = address {
            bump(&mut self.by_address, address, self.window, now);
        }
    }

    /// Records a failed attempt against both keys.
    pub fn record_failure(&mut self, username: &str, address: Option<&str>)
        requires
            old(self)@.can_count(username@, address_view(address)),
        ensures
            final(self).clock() == old(self).clock(),
            exists|now: u128|
                old(self).clock().reads(now) && final(self)@ == #[trigger] old(
                    self,
                )@.after_failure(username@, address_view(address), now),
    {
        let now: u128 = self.clock.read();
        self.record_failure_at(username, address, now)
    }

    /// Clears the account's counter after a successful login.
    pub fn record_success(&mut self, username: &str)
        ensures
            final(self)@ == old(self)@.after_success(username@),
            final(self).clock() == old(self).clock(),
    {
        self.by_account.remove(username);
    }
}

impl Default for LoginThrottle {
    fn default() -> (r: LoginThrottle)
        ensures
            r@ == (ThrottleView {
                by_account: Map::empty(),
                by_address: Map::empty(),
                account_limit: 5,
                address_limit: 20,
                window: Span { nanos: 300_000_000_000 },
            }),
    {
        LoginThrottle::new(
            Self::DEFAULT_ACCOUNT_LIMIT,
            Self::DEFAULT_ADDRESS_LIMIT,
            Span::from_secs(Self::DEFAULT_WINDOW),
        )
    }
}

/// What is known after a run of failed attempts, each of an account from an
/// address at a time.
pub open spec fn after_failures(
    throttle: ThrottleView,
    attempts: Seq<(Seq<char>, Option<Seq<char>>, u128)>,
) -> ThrottleView
    decreases attempts.len(),
{
    if attempts.len() == 0 {
        throttle
    } else {
        let (username, address, now) = attempts.last();
        after_failures(throttle, attempts.drop_last()).after_failure(username, address, now)
    }
}

/// Whether no attempt of the run comes later than `now`, nor a whole window or
/// more before it.
pub open spec fn are_recent(
    attempts: Seq<(Seq<char>, Option<Seq<char>>, u128)>,
    window: Span,
    now: u128,
) -> bool {
    forall|i: int|
        0 <= i < attempts.len() ==> (#[trigger] attempts[i]).2 <= now && within(
            attempts[i].2,
            now,
            window,
        )
}

/// Whether the times of a run do not go back.
pub open spec fn are_in_order(attempts: Seq<(Seq<char>, Option<Seq<char>>, u128)>) -> bool {
    forall|i: int, j: int|
        0 <= i < j < attempts.len() ==> (#[trigger] attempts[i]).2 <= (#[trigger] attempts[j]).2
}

/// How many attempts of a run name this account.
pub open spec fn tries_at(
    attempts: Seq<(Seq<char>, Option<Seq<char>>, u128)>,
    username: Seq<char>,
) -> nat
    decreases attempts.len(),
{
    if attempts.len() == 0 {
        0
    } else {
        tries_at(attempts.drop_last(), username) + if attempts.last().0 == username {
            1nat
        } else {
            0nat
        }
    }
}

/// How many attempts of a run come from this address.
pub open spec fn tries_from(
    attempts: Seq<(Seq<char>, Option<Seq<char>>, u128)>,
    address: Seq<char>,
) -> nat
    decreases attempts.len(),
{
    if attempts.len() == 0 {
        0
    } else {
        tries_from(attempts.drop_last(), address) + if attempts.last().1 == Some(address) {
            1nat
        } else {
            0nat
        }
    }
}

/// The counters after a run of recent failures count it, key by key.
proof fn lemma_failures_count(
    throttle: ThrottleView,
    attempts: Seq<(Seq<char>, Option<Seq<char>>, u128)>,
    username: Seq<char>,
    address: Seq<char>,
    now: u128,
)
    requires
        !throttle.by_account.contains_key(username),
        !throttle.by_address.contains_key(address),
        attempts.len() < u32::MAX,
        are_recent(attempts, throttle.window, now),
        are_in_order(attempts),
    ensures
        ({
            let after = after_failures(throttle, attempts);
            &&& after.window == throttle.window
            &&& after.account_limit == throttle.account_limit
            &&& after.address_limit == throttle.address_limit
            &&& after.by_account.contains_key(username) <==> tries_at(attempts, username) > 0
            &&& after.by_account.contains_key(username) ==> {
                &&& after.by_account[username].count == tries_at(attempts, username)
                &&& exists|i: int|
                    0 <= i < attempts.len() && (#[trigger] attempts[i]).2
                        == after.by_account[username].window_started
            }
            &&& after.by_address.contains_key(address) <==> tries_from(attempts, address) > 0
            &&& after.by_address.contains_key(address) ==> {
                &&& after.by_address[address].count == tries_from(attempts, address)
                &&& exists|i: int|
                    0 <= i < attempts.len() && (#[trigger] attempts[i]).2
                        == after.by_address[address].window_started
            }
            &&& tries_at(attempts, username) <= attempts.len()
            &&& tries_from(attempts, address) <= attempts.len()
        }),
    decreases attempts.len(),
{
    if attempts.len() > 0 {
        let before = attempts.drop_last();
        let last = attempts.len() - 1;
        assert forall|i: int| 0 <= i < before.len() implies (#[trigger] before[i]).2 <= now
            && within(before[i].2, now, throttle.window) by {
            assert(attempts[i] == before[i]);
        }
        assert(are_in_order(before)) by {
            assert forall|i: int, j: int| 0 <= i < j < before.len() implies (#[trigger] before[i]).2
                <= (#[trigger] before[j]).2 by {
                assert(attempts[i] == before[i] && attempts[j] == before[j]);
            }
        }
        lemma_failures_count(throttle, before, username, address, now);
        let known = after_failures(throttle, before);
        let after = after_failures(throttle, attempts);
        let (at, from, when) = attempts[last];
        if known.by_account.contains_key(username) {
            let i = choose|i: int|
                0 <= i < before.len() && (#[trigger] before[i]).2
                    == known.by_account[username].window_started;
            assert(attempts[i] == before[i]);
            assert(attempts[i].2 <= attempts[last].2);
            assert(within(attempts[i].2, attempts[last].2, throttle.window));
        }
        if known.by_address.contains_key(address) {
            let i = choose|i: int|
                0 <= i < before.len() && (#[trigger] before[i]).2
                    == known.by_address[address].window_started;
            assert(attempts[i] == before[i]);
            assert(attempts[i].2 <= attempts[last].2);
            assert(within(attempts[i].2, attempts[last].2, throttle.window));
        }
        assert(attempts[last].2 == when);
        assert(after.by_account.contains_key(username) ==> exists|i: int|
            0 <= i < attempts.len() && (#[trigger] attempts[i]).2
                == after.by_account[username].window_started);
        assert(after.by_address.contains_key(address) ==> exists|i: int|
            0 <= i < attempts.len() && (#[trigger] attempts[i]).2
                == after.by_address[address].window_started);
    }
}

/// Of an account without failures, an attempt is throttled exactly once as many
/// failures as the limit were recorded for it within the window, whatever else
/// failed; where the limit is not zero.
pub proof fn law_account_is_throttled_at_the_limit(
    throttle: ThrottleView,
    attempts: Seq<(Seq<char>, Option<Seq<char>>, u128)>,
    username: Seq<char>,
    now: u128,
)
    requires
        !throttle.by_account.contains_key(username),
        throttle.account_limit > 0,
        attempts.len() < u32::MAX,
        are_recent(attempts, throttle.window, now),
        are_in_order(attempts),
    ensures
        after_failures(throttle, attempts).verdict(username, None, now) is AccountThrottled
            <==> tries_at(attempts, username) >= throttle.account_limit,
{
    let unseen = ThrottleView { by_address: Map::empty(), ..throttle };
    lemma_failures_count(unseen, attempts, username, Seq::empty(), now);
    lemma_accounts_do_not_see_addresses(throttle, unseen, attempts);
}

/// The account counters do not depend on the address counters.
proof fn lemma_accounts_do_not_see_addresses(
    throttle: ThrottleView,
    other: ThrottleView,
    attempts: Seq<(Seq<char>, Option<Seq<char>>, u128)>,
)
    requires
        throttle.by_account == other.by_account,
        throttle.window == other.window,
        throttle.account_limit == other.account_limit,
    ensures
        after_failures(throttle, attempts).by_account == after_failures(other, attempts).by_account,
        after_failures(throttle, attempts).window == throttle.window,
        after_failures(other, attempts).window == throttle.window,
        after_failures(throttle, attempts).account_limit == throttle.account_limit,
        after_failures(other, attempts).account_limit == throttle.account_limit,
    decreases attempts.len(),
{
    if attempts.len() > 0 {
        lemma_accounts_do_not_see_addresses(throttle, other, attempts.drop_last());
    }
}

/// The address counters do not depend on the account counters.
proof fn lemma_addresses_do_not_see_accounts(
    throttle: ThrottleView,
    other: ThrottleView,
    attempts: Seq<(Seq<char>, Option<Seq<char>>, u128)>,
)
    requires
        throttle.by_address == other.by_address,
        throttle.window == other.window,
        throttle.address_limit == other.address_limit,
    ensures
        after_failures(throttle, attempts).by_address == after_failures(other, attempts).by_address,
        after_failures(throttle, attempts).window == throttle.window,
        after_failures(other, attempts).window == throttle.window,
        after_failures(throttle, attempts).address_limit == throttle.address_limit,
        after_failures(other, attempts).address_limit == throttle.address_limit,
    decreases attempts.len(),
{
    if attempts.len() > 0 {
        lemma_addresses_do_not_see_accounts(throttle, other, attempts.drop_last());
    }
}

/// Of an address without failures, an attempt is throttled exactly once as many
/// failures as the limit came from it within the window, whichever accounts
/// they were aimed at; where the limit is not zero.
pub proof fn law_address_is_throttled_at_the_limit(
    throttle: ThrottleView,
    attempts: Seq<(Seq<char>, Option<Seq<char>>, u128)>,
    username: Seq<char>,
    address: Seq<char>,
    now: u128,
)
    requires
        !throttle.by_address.contains_key(address),
        throttle.address_limit > 0,
        attempts.len() < u32::MAX,
        are_recent(attempts, throttle.window, now),
        are_in_order(attempts),
    ensures
        after_failures(throttle, attempts).verdict(username, Some(address), now) is AddressThrottled
            <==> tries_from(attempts, address) >= throttle.address_limit,
{
    let unseen = ThrottleView { by_account: Map::empty(), ..throttle };
    lemma_failures_count(unseen, attempts, Seq::empty(), address, now);
    lemma_addresses_do_not_see_accounts(throttle, unseen, attempts);
}

/// A success clears the counter of its account, and no other: from an address
/// that is not throttled, the next attempt at that account is allowed.
pub proof fn law_success_clears_the_account(
    throttle: ThrottleView,
    username: Seq<char>,
    other: Seq<char>,
    address: Option<Seq<char>>,
    now: u128,
)
    ensures
        throttle.after_success(username).verdict(username, address, now) is Allowed
            <==> !(throttle.verdict(username, address, now) is AddressThrottled),
        throttle.after_success(username).verdict(username, address, now) is AddressThrottled
            <==> throttle.verdict(username, address, now) is AddressThrottled,
        other != username ==> throttle.after_success(username).verdict(other, address, now)
            == throttle.verdict(other, address, now),
{
}

/// A failure of one account from one address says nothing about another account
/// from another address.
pub proof fn law_failures_touch_their_keys_alone(
    throttle: ThrottleView,
    username: Seq<char>,
    address: Option<Seq<char>>,
    when: u128,
    other: Seq<char>,
    elsewhere: Option<Seq<char>>,
    now: u128,
)
    requires
        other != username,
        elsewhere is Some ==> elsewhere != address,
    ensures
        throttle.after_failure(username, address, when).verdict(other, elsewhere, now)
            == throttle.verdict(other, elsewhere, now),
{
}

/// Failures are not remembered past the window.
pub proof fn law_failures_lapse(
    throttle: ThrottleView,
    username: Seq<char>,
    address: Option<Seq<char>>,
    now: u128,
)
    requires
        throttle.by_account.contains_key(username) ==> !within(
            throttle.by_account[username].window_started,
            now,
            throttle.window,
        ),
        address matches Some(address) ==> throttle.by_address.contains_key(address) ==> !within(
            throttle.by_address[address].window_started,
            now,
            throttle.window,
        ),
    ensures
        throttle.verdict(username, address, now) is Allowed,
{
}

/// Checking an attempt changes no verdict, now or later.
pub proof fn law_checking_changes_no_verdict(
    throttle: ThrottleView,
    username: Seq<char>,
    address: Option<Seq<char>>,
    now: u128,
    other: Seq<char>,
    elsewhere: Option<Seq<char>>,
    later: u128,
)
    requires
        now <= later,
    ensures
        throttle.after_check(username, address, now).verdict(other, elsewhere, later)
            == throttle.verdict(other, elsewhere, later),
{
}

/// An account is throttled from whatever address the attempt comes: an address
/// that is not throttled itself changes nothing, and neither does none.
pub proof fn law_accounts_are_throttled_from_everywhere(
    throttle: ThrottleView,
    username: Seq<char>,
    address: Seq<char>,
    now: u128,
)
    ensures
        !(throttle.verdict(username, Some(address), now) is AddressThrottled)
            ==> throttle.verdict(username, Some(address), now) == throttle.verdict(
            username,
            None,
            now,
        ),
        !(throttle.verdict(username, None, now) is AddressThrottled),
{
}

/// Which attempts are turned away, said of the counters: those from an address
/// whose count within the window is at the limit, and those at an account whose
/// count is.
pub proof fn law_counts_at_the_limit_are_throttled(
    throttle: ThrottleView,
    username: Seq<char>,
    address: Seq<char>,
    now: u128,
)
    requires
        throttle.by_address.contains_key(address) ==> throttle.by_address[address].window_started
            <= now,
        throttle.by_account.contains_key(username) ==> throttle.by_account[username].window_started
            <= now,
    ensures
        throttle.verdict(username, Some(address), now) is AddressThrottled
            <==> throttle.by_address.contains_key(address) && now
            < throttle.by_address[address].window_started + throttle.window.nanos
            && throttle.by_address[address].count >= throttle.address_limit,
        throttle.verdict(username, None, now) is AccountThrottled
            <==> throttle.by_account.contains_key(username) && now
            < throttle.by_account[username].window_started + throttle.window.nanos
            && throttle.by_account[username].count >= throttle.account_limit,
{
}

/// A lapsed count counts like none: the next failure starts afresh, and from then
/// on the account is judged as if it had never failed before.
pub proof fn law_a_lapsed_count_starts_afresh(
    throttle: ThrottleView,
    username: Seq<char>,
    address: Option<Seq<char>>,
    when: u128,
    now: u128,
)
    requires
        throttle.by_account.contains_key(username) ==> throttle.by_account[username].window_started
            + throttle.window.nanos <= when,
    ensures
        throttle.after_failure(username, address, when).verdict(username, None, now)
            == throttle.after_success(username).after_failure(username, address, when).verdict(
            username,
            None,
            now,
        ),
        throttle.after_failure(username, address, when).by_account[username] == (Failures {
            count: 1,
            window_started: when,
        }),
{
}

/// A failure adds one to a running count, of its account and of its address, and
/// leaves when the window started.
pub proof fn law_a_failure_counts_one(
    throttle: ThrottleView,
    username: Seq<char>,
    address: Seq<char>,
    when: u128,
)
    requires
        throttle.can_count(username, Some(address)),
        throttle.by_account.contains_key(username),
        throttle.by_account[username].window_started <= when
            < throttle.by_account[username].window_started + throttle.window.nanos,
        throttle.by_address.contains_key(address),
        throttle.by_address[address].window_started <= when
            < throttle.by_address[address].window_started + throttle.window.nanos,
    ensures
        ({
            let after = throttle.after_failure(username, Some(address), when);
            &&& after.by_account[username].count == throttle.by_account[username].count + 1
            &&& after.by_account[username].window_started
                == throttle.by_account[username].window_started
            &&& after.by_address[address].count == throttle.by_address[address].count + 1
            &&& after.by_address[address].window_started
                == throttle.by_address[address].window_started
            &&& after.account_limit == throttle.account_limit
            &&& after.address_limit == throttle.address_limit
            &&& after.window == throttle.window
        }),
{
}

/// A count can go on exactly while it is below the largest number there is.
pub proof fn law_counts_have_room_below_their_maximum(
    throttle: ThrottleView,
    username: Seq<char>,
    address: Seq<char>,
)
    ensures
        throttle.can_count(username, None) <==> (throttle.by_account.contains_key(username)
            ==> throttle.by_account[username].count < 4_294_967_295),
        throttle.can_count(username, Some(address)) <==> (throttle.can_count(username, None) && (
        throttle.by_address.contains_key(address) ==> throttle.by_address[address].count
            < 4_294_967_295)),
{
}

/// Checking an attempt changes no count that is kept: a failure that follows leads
/// to the same verdicts as without the check, and neither limits nor window
/// change.
pub proof fn law_checking_keeps_the_counts(
    throttle: ThrottleView,
    username: Seq<char>,
    address: Option<Seq<char>>,
    now: u128,
    other: Seq<char>,
    elsewhere: Option<Seq<char>>,
    when: u128,
    later: u128,
)
    requires
        now <= when <= later,
    ensures
        throttle.after_check(username, address, now).after_failure(other, elsewhere, when).verdict(
            other,
            elsewhere,
            later,
        ) == throttle.after_failure(other, elsewhere, when).verdict(other, elsewhere, later),
        throttle.after_check(username, address, now).account_limit == throttle.account_limit,
        throttle.after_check(username, address, now).address_limit == throttle.address_limit,
        throttle.after_check(username, address, now).window == throttle.window,
{
}

/// An address is seen as it is, whichever it is.
pub proof fn law_addresses_are_seen_as_they_are(address: &str)
    ensures
        address_view(Some(address)) == Some(address@),
        address_view(None) is None,
{
}

/// A count that has lapsed is forgotten once it was looked at, and no other: what
/// is left is what still counts of it, as it was.
pub proof fn law_only_lapsed_counts_are_forgotten(
    throttle: ThrottleView,
    username: Seq<char>,
    address: Seq<char>,
    now: u128,
    other: Seq<char>,
)
    ensures
        ({
            let after = throttle.after_check(username, Some(address), now);
            &&& after.by_address.contains_key(address) <==> throttle.by_address.contains_key(address)
                && within(throttle.by_address[address].window_started, now, throttle.window)
            &&& after.by_address.contains_key(address) ==> after.by_address[address]
                == throttle.by_address[address]
            &&& after.by_address.remove(address) == throttle.by_address.remove(address)
            &&& after.by_account.remove(username) == throttle.by_account.remove(username)
            &&& after.by_account.contains_key(username) ==> after.by_account[username]
                == throttle.by_account[username]
            &&& !(throttle.verdict(username, Some(address), now) is AddressThrottled) ==> (
            after.by_account.contains_key(username) <==> throttle.by_account.contains_key(username)
                && within(throttle.by_account[username].window_started, now, throttle.window))
            &&& throttle.verdict(username, Some(address), now) is AddressThrottled
                ==> after.by_account == throttle.by_account
        }),
{
    let after = throttle.after_check(username, Some(address), now);
    assert(after.by_address.remove(address) =~= throttle.by_address.remove(address));
    assert(after.by_account.remove(username) =~= throttle.by_account.remove(username));
}

} // verus!
