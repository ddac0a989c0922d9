//! Idempotency keys for `POST /profile`.
//!
//! A client whose request times out cannot tell whether the server processed
//! it. Retrying is the only option, and without deduplication the retry gets
//! `409` — indistinguishable from "someone else created this profile", which is
//! a materially different fact.
//!
//! An `Idempotency-Key` fixes that: the first request's outcome is recorded
//! against the key and replayed verbatim for any retry carrying the same key.
//!
//! - **Key unseen** — reserve it, run the request, record the outcome.
//! - **Key complete** — replay the recorded response.
//! - **Key in flight** — the first request has not finished.
//! - **Key reused** with a *different* body — replaying the first response
//!   would silently discard the second request, so it is refused.
//!
//! `PUT` needs none of this: `If-Match` already makes a retry idempotent,
//! because the second attempt fails its precondition.

use crate::common::text::same_text;
use crate::common::time::{is_within, within, Span, Stopwatch};
use vstd::prelude::*;

verus! {

/// A recorded response, replayed for any retry of the same key.
#[derive(Debug)]
pub struct Recorded {
    /// Status of the original response.
    pub status: u16,
    /// Body of the original response, verbatim.
    pub body: String,
    /// `ETag` of the original response, if it carried one.
    pub etag: Option<String>,
}

/// What a recorded response says.
#[verifier::ext_equal]
pub struct RecordedView {
    /// Status of the original response.
    pub status: u16,
    /// Body of the original response, verbatim.
    pub body: Seq<char>,
    /// `ETag` of the original response, if it carried one.
    pub etag: Option<Seq<char>>,
}

impl View for Recorded {
    type V = RecordedView;

    open spec fn view(&self) -> RecordedView {
        RecordedView {
            status: self.status,
            body: self.body@,
            etag: match self.etag {
                Some(etag) => Some(etag@),
                None => None,
            },
        }
    }
}

impl Clone for Recorded {
    fn clone(&self) -> (r: Recorded)
        ensures
            r@ == self@,
    {
        Recorded {
            status: self.status,
            body: self.body.clone(),
            etag: match &self.etag {
                Some(etag) => Some(etag.clone()),
                None => None,
            },
        }
    }
}

/// What the store says about a key.
#[derive(Debug, Clone)]
pub enum Lookup {
    /// The key is newly reserved; the caller should do the work.
    Reserved,
    /// The key completed; replay this.
    Replay(Recorded),
    /// Another request holds this key right now.
    InFlight,
    /// The key was used before with a different request body.
    BodyMismatch,
}

/// What the store's word on a key says.
pub enum LookupView {
    /// The key is newly reserved.
    Reserved,
    /// The key completed.
    Replay(RecordedView),
    /// Another request holds this key right now.
    InFlight,
    /// The key was used before with a different request body.
    BodyMismatch,
}

impl View for Lookup {
    type V = LookupView;

    open spec fn view(&self) -> LookupView {
        match self {
            Lookup::Reserved => LookupView::Reserved,
            Lookup::Replay(recorded) => LookupView::Replay(recorded@),
            Lookup::InFlight => LookupView::InFlight,
            Lookup::BodyMismatch => LookupView::BodyMismatch,
        }
    }
}

/// What is known of one key.
#[derive(Debug)]
enum Entry {
    InFlight { fingerprint: u64, since: u128 },
    Complete { fingerprint: u64, at: u128, recorded: Recorded },
}

/// What is known of one key, the times being readings of the store's clock.
pub enum EntryView {
    /// A request holds the key.
    InFlight {
        /// Fingerprint of its body.
        fingerprint: u64,
        /// When the key was reserved.
        since: u128,
    },
    /// The request is over.
    Complete {
        /// Fingerprint of its body.
        fingerprint: u64,
        /// When it ended.
        at: u128,
        /// How it ended.
        recorded: RecordedView,
    },
}

impl EntryView {
    /// The fingerprint of the body that the key was used with.
    pub open spec fn fingerprint(self) -> u64 {
        match self {
            EntryView::InFlight { fingerprint, .. } => fingerprint,
            EntryView::Complete { fingerprint, .. } => fingerprint,
        }
    }

    /// Whether the entry still counts at `now`.
    pub open spec fn is_live(self, retention: Span, reservation_timeout: Span, now: u128) -> bool {
        match self {
            EntryView::InFlight { since, .. } => within(since, now, reservation_timeout),
            EntryView::Complete { at, .. } => within(at, now, retention),
        }
    }
}

impl View for Entry {
    type V = EntryView;

    closed spec fn view(&self) -> EntryView {
        match self {
            Entry::InFlight { fingerprint, since } => EntryView::InFlight {
                fingerprint: *fingerprint,
                since: *since,
            },
            Entry::Complete { fingerprint, at, recorded } => EntryView::Complete {
                fingerprint: *fingerprint,
                at: *at,
                recorded: recorded@,
            },
        }
    }
}

impl Entry {
    fn fingerprint(&self) -> (r: u64)
        ensures
            r == self@.fingerprint(),
    {
        match self {
            Entry::InFlight { fingerprint, .. } | Entry::Complete { fingerprint, .. } =>
                *fingerprint,
        }
    }

    fn is_live(&self, retention: Span, reservation_timeout: Span, now: u128) -> (r: bool)
        ensures
            r == self@.is_live(retention, reservation_timeout, now),
    {
        match self {
            Entry::InFlight { since, .. } => is_within(*since, now, reservation_timeout),
            Entry::Complete { at, .. } => is_within(*at, now, retention),
        }
    }
}

/// The fingerprint of a request body.
pub uninterp spec fn fingerprint_of(body: Seq<char>) -> u64;

/// Calls `std::hash::BuildHasher::hash_one` with hashers that
/// `std::hash::DefaultHasher::default` makes. All of those are the same, so the
/// claim is that the hash depends on the body alone.
///
/// A hash, not the body itself: the store must not retain payloads it has no
/// reason to keep. Collisions would let a mismatched retry replay the wrong
/// response, but at 64 bits against the handful of bodies one client sends
/// under one key, that is not a risk worth a cryptographic digest.
#[verifier::external_body]
fn fingerprint(body: &str) -> (r: u64)
    ensures
        r == fingerprint_of(body@),
{
    let hashers: std::hash::BuildHasherDefault<std::hash::DefaultHasher> = Default::default();
    std::hash::BuildHasher::hash_one(&hashers, body)
}

/// What is known of every key, by user and key.
pub type Entries = Map<(Seq<char>, Seq<char>), EntryView>;

/// What is left of the entries at `now`.
pub open spec fn live(
    entries: Entries,
    retention: Span,
    reservation_timeout: Span,
    now: u128,
) -> Entries {
    Map::new(
        |name: (Seq<char>, Seq<char>)|
            entries.contains_key(name) && entries[name].is_live(
                retention,
                reservation_timeout,
                now,
            ),
        |name: (Seq<char>, Seq<char>)| entries[name],
    )
}

/// What is said of a key that is presented with a body, where `entries` is what
/// is known.
pub open spec fn lookup(entries: Entries, name: (Seq<char>, Seq<char>), body: Seq<char>)
    -> LookupView {
    if !entries.contains_key(name) {
        LookupView::Reserved
    } else if entries[name].fingerprint() != fingerprint_of(body) {
        LookupView::BodyMismatch
    } else {
        match entries[name] {
            EntryView::InFlight { .. } => LookupView::InFlight,
            EntryView::Complete { recorded, .. } => LookupView::Replay(recorded),
        }
    }
}

/// What is known once a key was presented with a body at `now`: a key that was
/// not known is reserved.
pub open spec fn after_begin(
    entries: Entries,
    name: (Seq<char>, Seq<char>),
    body: Seq<char>,
    now: u128,
) -> Entries {
    if entries.contains_key(name) {
        entries
    } else {
        entries.insert(
            name,
            EntryView::InFlight { fingerprint: fingerprint_of(body), since: now },
        )
    }
}

/// What is known once an outcome was recorded at `now`.
pub open spec fn after_finish(
    entries: Entries,
    name: (Seq<char>, Seq<char>),
    body: Seq<char>,
    recorded: RecordedView,
    now: u128,
) -> Entries {
    entries.insert(
        name,
        EntryView::Complete { fingerprint: fingerprint_of(body), at: now, recorded },
    )
}

/// What is known once a reservation was released.
pub open spec fn after_abandon(entries: Entries, name: (Seq<char>, Seq<char>)) -> Entries {
    if entries.contains_key(name) && entries[name] is InFlight {
        entries.remove(name)
    } else {
        entries
    }
}

/// One key of one user, with what is known of it.
#[derive(Debug)]
struct Slot {
    user: String,
    key: String,
    entry: Entry,
}

impl Slot {
    spec fn name(self) -> (Seq<char>, Seq<char>) {
        (self.user@, self.key@)
    }
}

/// Whether `name` stands at `i`.
spec fn stands_at(slots: Seq<Slot>, name: (Seq<char>, Seq<char>), i: int) -> bool {
    0 <= i < slots.len() && slots[i].name() == name
}

/// No key of a user stands twice.
spec fn stand_once(slots: Seq<Slot>) -> bool {
    forall|i: int, j: int|
        0 <= i < j < slots.len() ==> (#[trigger] slots[i]).name() != (#[trigger] slots[j]).name()
}

/// What the slots say of every key.
spec fn entries_of(slots: Seq<Slot>) -> Entries {
    Map::new(
        |name: (Seq<char>, Seq<char>)| exists|i: int| stands_at(slots, name, i),
        |name: (Seq<char>, Seq<char>)| slots[choose|i: int| stands_at(slots, name, i)].entry@,
    )
}

/// Each slot says what is known of its key.
proof fn lemma_slot_says(slots: Seq<Slot>, i: int)
    requires
        stand_once(slots),
        0 <= i < slots.len(),
    ensures
        entries_of(slots).contains_key(slots[i].name()),
        entries_of(slots)[slots[i].name()] == slots[i].entry@,
{
    assert(stands_at(slots, slots[i].name(), i));
    let at = choose|at: int| stands_at(slots, slots[i].name(), at);
    assert(stands_at(slots, slots[i].name(), at));
    if at < i {
        assert(slots[at].name() != slots[i].name());
    } else if i < at {
        assert(slots[i].name() != slots[at].name());
    }
}

/// A slot for a new key adds what it says.
proof fn lemma_slot_added(slots: Seq<Slot>, slot: Slot)
    requires
        stand_once(slots),
        !entries_of(slots).contains_key(slot.name()),
    ensures
        stand_once(slots.push(slot)),
        entries_of(slots.push(slot)) == entries_of(slots).insert(slot.name(), slot.entry@),
{
    let more = slots.push(slot);
    assert forall|i: int, j: int| 0 <= i < j < more.len() implies (#[trigger] more[i]).name() != (
    #[trigger] more[j]).name() by {
        if j == slots.len() {
            assert(stands_at(slots, slots[i].name(), i));
        }
    }
    let all = entries_of(slots).insert(slot.name(), slot.entry@);
    assert forall|name: (Seq<char>, Seq<char>)|
        #![trigger entries_of(more).dom().contains(name)]
        #![trigger all.dom().contains(name)]
        entries_of(more).contains_key(name) == all.contains_key(name) && (all.contains_key(name)
            ==> entries_of(more)[name] == all[name]) by {
        if entries_of(more).contains_key(name) {
            let i = choose|i: int| stands_at(more, name, i);
            lemma_slot_says(more, i);
            if i < slots.len() {
                lemma_slot_says(slots, i);
            }
        }
        if entries_of(slots).contains_key(name) {
            let i = choose|i: int| stands_at(slots, name, i);
            lemma_slot_says(slots, i);
            assert(stands_at(more, name, i));
            lemma_slot_says(more, i);
        }
        if name == slot.name() {
            lemma_slot_says(more, slots.len() as int);
        }
    }
    assert(entries_of(more) =~= all);
}

/// Taking the last slot away takes its key away.
proof fn lemma_slot_dropped(slots: Seq<Slot>)
    requires
        stand_once(slots),
        slots.len() > 0,
    ensures
        stand_once(slots.drop_last()),
        entries_of(slots.drop_last()) == entries_of(slots).remove(slots.last().name()),
        entries_of(slots).contains_key(slots.last().name()),
        entries_of(slots)[slots.last().name()] == slots.last().entry@,
        !entries_of(slots.drop_last()).contains_key(slots.last().name()),
{
    let fewer = slots.drop_last();
    let name = slots.last().name();
    lemma_slot_says(slots, slots.len() - 1);
    if entries_of(fewer).contains_key(name) {
        let i = choose|i: int| stands_at(fewer, name, i);
        assert(stands_at(fewer, name, i));
        assert(slots[i].name() != slots[slots.len() - 1].name());
    }
    assert(fewer.push(slots.last()) =~= slots);
    lemma_slot_added(fewer, slots.last());
    assert(entries_of(fewer).insert(name, slots.last().entry@).remove(name) =~= entries_of(fewer));
}

/// Records the outcome of keyed requests for a bounded window.
pub struct IdempotencyStore {
    slots: Vec<Slot>,
    retention: Span,
    reservation_timeout: Span,
    clock: Stopwatch,
}

impl View for IdempotencyStore {
    type V = Entries;

    closed spec fn view(&self) -> Entries {
        entries_of(self.slots@)
    }
}

impl IdempotencyStore {
    /// How long a completed outcome stays replayable, in seconds.
    pub const DEFAULT_RETENTION: u64 = 86_400;

    /// How long an unfinished request holds its key, in seconds.
    pub const DEFAULT_RESERVATION_TIMEOUT: u64 = 60;

    /// How long a completed outcome stays replayable.
    pub closed spec fn retention(&self) -> Span {
        self.retention
    }

    /// How long an unfinished request is honoured before it is assumed
    /// abandoned. Without this, a request that dies mid-flight would wedge its
    /// key until the process restarts.
    pub closed spec fn reservation_timeout(&self) -> Span {
        self.reservation_timeout
    }

    /// The clock that the store reads.
    pub closed spec fn clock(&self) -> Stopwatch {
        self.clock
    }

    /// No key of a user stands twice.
    #[verifier::type_invariant]
    spec fn keeps_keys_apart(&self) -> bool {
        stand_once(self.slots@)
    }

    /// Builds a store with the given windows.
    #[must_use]
    pub fn new(retention: Span, reservation_timeout: Span) -> (r: IdempotencyStore)
        ensures
            r@ == Entries::empty(),
            r.retention() == retention,
            r.reservation_timeout() == reservation_timeout,
    {
        let slots: Vec<Slot> = Vec::new();
        assert(entries_of(slots@) =~= Entries::empty());
        IdempotencyStore { slots, retention, reservation_timeout, clock: Stopwatch::start() }
    }

    /// Where a key of a user stands.
    fn find(&self, user: &str, key: &str) -> (r: Option<usize>)
        ensures
            match r {
                Some(i) => stands_at(self.slots@, (user@, key@), i as int),
                None => !self@.contains_key((user@, key@)),
            },
    {
        let mut i: usize = 0;
        while i < self.slots.len()
            invariant
                i <= self.slots.len(),
                forall|j: int| 0 <= j < i ==> !stands_at(self.slots@, (user@, key@), j),
            decreases self.slots.len() - i,
        {
            if same_text(self.slots[i].user.as_str(), user) && same_text(
                self.slots[i].key.as_str(),
                key,
            ) {
                return Some(i);
            }
            i = i + 1;
        }
        None
    }

    /// Forgets what no longer counts at `now`.
    fn expire_at(&mut self, now: u128)
        ensures
            final(self)@ == live(
                old(self)@,
                old(self).retention(),
                old(self).reservation_timeout(),
                now,
            ),
            final(self).retention() == old(self).retention(),
            final(self).reservation_timeout() == old(self).reservation_timeout(),
            final(self).clock() == old(self).clock(),
    {
        proof {
            use_type_invariant(&*self);
        }
        let retention = self.retention;
        let timeout = self.reservation_timeout;
        let mut rest: Vec<Slot> = Vec::new();
        std::mem::swap(&mut rest, &mut self.slots);
        let mut kept: Vec<Slot> = Vec::new();
        let ghost all = old(self)@;
        assert(entries_of(kept@) =~= Entries::empty());
        while rest.len() > 0
            invariant
                stand_once(rest@),
                stand_once(kept@),
                forall|name: (Seq<char>, Seq<char>)| #[trigger]
                    entries_of(rest@).contains_key(name) ==> all.contains_key(name) && all[name]
                        == entries_of(rest@)[name] && !entries_of(kept@).contains_key(name),
                forall|name: (Seq<char>, Seq<char>)| #[trigger]
                    entries_of(kept@).contains_key(name) ==> all.contains_key(name) && all[name]
                        == entries_of(kept@)[name] && all[name].is_live(retention, timeout, now),
                forall|name: (Seq<char>, Seq<char>)| #[trigger]
                    all.contains_key(name) && all[name].is_live(retention, timeout, now)
                        ==> entries_of(rest@).contains_key(name) || entries_of(
                        kept@,
                    ).contains_key(name),
            decreases rest@.len(),
        {
            proof {
                lemma_slot_dropped(rest@);
            }
            match rest.pop() {
                Some(slot) => {
                    if slot.entry.is_live(retention, timeout, now) {
                        proof {
                            lemma_slot_added(kept@, slot);
                        }
                        kept.push(slot);
                    }
                },
                None => {},
            }
        }
        assert forall|name: (Seq<char>, Seq<char>)| !entries_of(rest@).contains_key(name) by {
            if entries_of(rest@).contains_key(name) {
                let i = choose|i: int| stands_at(rest@, name, i);
                assert(stands_at(rest@, name, i));
            }
        }
        assert(entries_of(kept@) =~= live(all, retention, timeout, now));
        self.slots = kept;
    }

    /// Reserves `key` for `user` at `now`, or reports what is already known
    /// about it.
    pub fn begin_at(&mut self, user: &str, key: &str, body: &str, now: u128) -> (r: Lookup)
        ensures
            r@ == lookup(
                live(old(self)@, old(self).retention(), old(self).reservation_timeout(), now),
                (user@, key@),
                body@,
            ),
            final(self)@ == after_begin(
                live(old(self)@, old(self).retention(), old(self).reservation_timeout(), now),
                (user@, key@),
                body@,
                now,
            ),
            final(self).retention() == old(self).retention(),
            final(self).reservation_timeout() == old(self).reservation_timeout(),
            final(self).clock() == old(self).clock(),
    {
        let print: u64 = fingerprint(body);
        self.expire_at(now);
        proof {
            use_type_invariant(&*self);
        }
        match self.find(user, key) {
            Some(i) => {
                proof {
                    lemma_slot_says(self.slots@, i as int);
                }
                if self.slots[i].entry.fingerprint() != print {
                    return Lookup::BodyMismatch;
                }
                match &self.slots[i].entry {
                    Entry::InFlight { .. } => Lookup::InFlight,
                    Entry::Complete { recorded, .. } => Lookup::Replay(recorded.clone()),
                }
            },
            None => {
                let slot = Slot {
                    user: user.to_owned(),
                    key: key.to_owned(),
                    entry: Entry::InFlight { fingerprint: print, since: now },
                };
                let mut slots: Vec<Slot> = Vec::new();
                std::mem::swap(&mut slots, &mut self.slots);
                proof {
                    lemma_slot_added(slots@, slot);
                }
                slots.push(slot);
                self.slots = slots;
                Lookup::Reserved
            },
        }
    }

    /// Reserves `key` for `user`, or reports what is already known about it.
    pub fn begin(&mut self, user: &str, key: &str, body: &str) -> (r: Lookup)
        ensures
            exists|now: u128|
                {
                    &&& old(self).clock().reads(now)
                    &&& r@ == lookup(
                        #[trigger] live(
                            old(self)@,
                            old(self).retention(),
                            old(self).reservation_timeout(),
                            now,
                        ),
                        (user@, key@),
                        body@,
                    )
                    &&& final(self)@ == after_begin(
                        live(
                            old(self)@,
                            old(self).retention(),
                            old(self).reservation_timeout(),
                            now,
                        ),
                        (user@, key@),
                        body@,
                        now,
                    )
                },
            final(self).retention() == old(self).retention(),
            final(self).reservation_timeout() == old(self).reservation_timeout(),
            final(self).clock() == old(self).clock(),
    {
        let now: u128 = self.clock.read();
        self.begin_at(user, key, body, now)
    }

    /// Takes the slot of a key out, if there is one.
    fn take(&mut self, user: &str, key: &str)
        ensures
            final(self)@ == old(self)@.remove((user@, key@)),
            final(self).retention() == old(self).retention(),
            final(self).reservation_timeout() == old(self).reservation_timeout(),
            final(self).clock() == old(self).clock(),
    {
        proof {
            use_type_invariant(&*self);
        }
        match self.find(user, key) {
            Some(i) => {
                let mut slots: Vec<Slot> = Vec::new();
                std::mem::swap(&mut slots, &mut self.slots);
                let ghost before = slots@;
                let _ = slots.swap_remove(i);
                proof {
                    let ghost moved = before.update(i as int, before.last());
                    assert(slots@ =~= moved.drop_last());
                    lemma_swap_removed(before, i as int);
                }
                self.slots = slots;
            },
            None => {
                assert(self@.remove((user@, key@)) =~= self@);
            },
        }
    }

    /// Records the outcome of a reserved key at `now`.
    pub fn finish_at(&mut self, user: &str, key: &str, body: &str, recorded: Recorded, now: u128)
        ensures
            final(self)@ == after_finish(old(self)@, (user@, key@), body@, recorded@, now),
            final(self).retention() == old(self).retention(),
            final(self).reservation_timeout() == old(self).reservation_timeout(),
            final(self).clock() == old(self).clock(),
    {
        let print: u64 = fingerprint(body);
        self.take(user, key);
        proof {
            use_type_invariant(&*self);
        }
        let slot = Slot {
            user: user.to_owned(),
            key: key.to_owned(),
            entry: Entry::Complete { fingerprint: print, at: now, recorded },
        };
        let mut slots: Vec<Slot> = Vec::new();
        std::mem::swap(&mut slots, &mut self.slots);
        proof {
            lemma_slot_added(slots@, slot);
        }
        slots.push(slot);
        self.slots = slots;
        assert(self@ =~= after_finish(old(self)@, (user@, key@), body@, recorded@, now));
    }

    /// Records the outcome of a reserved key.
    pub fn finish(&mut self, user: &str, key: &str, body: &str, recorded: Recorded)
        ensures
            exists|now: u128|
                old(self).clock().reads(now) && final(self)@ == #[trigger] after_finish(
                    old(self)@,
                    (user@, key@),
                    body@,
                    recorded@,
                    now,
                ),
            final(self).retention() == old(self).retention(),
            final(self).reservation_timeout() == old(self).reservation_timeout(),
            final(self).clock() == old(self).clock(),
    {
        let now: u128 = self.clock.read();
        self.finish_at(user, key, body, recorded, now)
    }

    /// Releases a reservation whose request failed, so a retry may proceed.
    ///
    /// A recorded terminal response is never released, or a retry would re-run
    /// the work.
    pub fn abandon(&mut self, user: &str, key: &str)
        ensures
            final(self)@ == after_abandon(old(self)@, (user@, key@)),
            final(self).retention() == old(self).retention(),
            final(self).reservation_timeout() == old(self).reservation_timeout(),
            final(self).clock() == old(self).clock(),
    {
        proof {
            use_type_invariant(&*self);
        }
        match self.find(user, key) {
            Some(i) => {
                proof {
                    lemma_slot_says(self.slots@, i as int);
                }
                if let Entry::InFlight { .. } = &self.slots[i].entry {
                    self.take(user, key);
                }
            },
            None => {},
        }
    }
}

/// Filling the gap of a slot with the last one takes the gap's key away.
proof fn lemma_swap_removed(slots: Seq<Slot>, i: int)
    requires
        stand_once(slots),
        0 <= i < slots.len(),
    ensures
        stand_once(slots.update(i, slots.last()).drop_last()),
        entries_of(slots.update(i, slots.last()).drop_last()) == entries_of(slots).remove(
            slots[i].name(),
        ),
{
    let left = slots.update(i, slots.last()).drop_last();
    let name = slots[i].name();
    assert forall|a: int, b: int| 0 <= a < b < left.len() implies (#[trigger] left[a]).name() != (
    #[trigger] left[b]).name() by {
        let last = slots.len() - 1;
        let from = if a == i {
            last
        } else {
            a
        };
        let to = if b == i {
            last
        } else {
            b
        };
        assert(left[a] == slots[from] && left[b] == slots[to]);
        if from < to {
            assert(slots[from].name() != slots[to].name());
        } else {
            assert(slots[to].name() != slots[from].name());
        }
    }
    let fewer = entries_of(slots).remove(name);
    assert forall|other: (Seq<char>, Seq<char>)|
        #![trigger entries_of(left).dom().contains(other)]
        #![trigger fewer.dom().contains(other)]
        entries_of(left).contains_key(other) == fewer.contains_key(other) && (fewer.contains_key(
            other,
        ) ==> entries_of(left)[other] == fewer[other]) by {
        if entries_of(left).contains_key(other) {
            let at = choose|at: int| stands_at(left, other, at);
            assert(stands_at(left, other, at));
            lemma_slot_says(left, at);
            let from = if at == i {
                slots.len() - 1
            } else {
                at
            };
            assert(left[at] == slots[from]);
            lemma_slot_says(slots, from);
            if from < i {
                assert(slots[from].name() != slots[i].name());
            } else {
                assert(slots[i].name() != slots[from].name());
            }
        }
        if fewer.contains_key(other) {
            let from = choose|from: int| stands_at(slots, other, from);
            assert(stands_at(slots, other, from));
            lemma_slot_says(slots, from);
            let at = if from == slots.len() - 1 {
                i
            } else {
                from
            };
            assert(left[at] == slots[from]);
            assert(stands_at(left, other, at));
            lemma_slot_says(left, at);
        }
    }
    assert(entries_of(left) =~= fewer);
}

impl Default for IdempotencyStore {
    fn default() -> (r: IdempotencyStore)
        ensures
            r@ == Entries::empty(),
            r.retention().nanos == 86_400_000_000_000,
            r.reservation_timeout().nanos == 60_000_000_000,
    {
        IdempotencyStore::new(
            Span::from_secs(Self::DEFAULT_RETENTION),
            Span::from_secs(Self::DEFAULT_RESERVATION_TIMEOUT),
        )
    }
}

/// A key that no one has used is reserved, and from then on in flight for the
/// same body, until the reservation lapses.
pub proof fn law_a_fresh_key_is_reserved(
    entries: Entries,
    name: (Seq<char>, Seq<char>),
    body: Seq<char>,
    retention: Span,
    timeout: Span,
    first: u128,
    then: u128,
)
    requires
        !live(entries, retention, timeout, first).contains_key(name),
        first <= then,
    ensures
        lookup(live(entries, retention, timeout, first), name, body) is Reserved,
        lookup(
            live(
                after_begin(live(entries, retention, timeout, first), name, body, first),
                retention,
                timeout,
                then,
            ),
            name,
            body,
        ) == if then - first < timeout.nanos {
            LookupView::InFlight
        } else {
            LookupView::Reserved
        },
{
}

/// A recorded outcome is replayed verbatim to any retry with the same body, for
/// as long as it is retained; then the key is free again.
pub proof fn law_a_recorded_outcome_is_replayed(
    entries: Entries,
    name: (Seq<char>, Seq<char>),
    body: Seq<char>,
    recorded: RecordedView,
    retention: Span,
    timeout: Span,
    at: u128,
    then: u128,
)
    requires
        at <= then,
    ensures
        lookup(
            live(after_finish(entries, name, body, recorded, at), retention, timeout, then),
            name,
            body,
        ) == if then - at < retention.nanos {
            LookupView::Replay(recorded)
        } else {
            LookupView::Reserved
        },
{
}

/// A key that counts is refused to a body with another fingerprint, and stays
/// as it is.
pub proof fn law_a_reused_key_is_refused(
    entries: Entries,
    name: (Seq<char>, Seq<char>),
    body: Seq<char>,
    now: u128,
)
    requires
        entries.contains_key(name),
        entries[name].fingerprint() != fingerprint_of(body),
    ensures
        lookup(entries, name, body) is BodyMismatch,
        after_begin(entries, name, body, now) == entries,
{
}

/// What one user does with a key says nothing about another user's.
pub proof fn law_keys_are_scoped_to_one_user(
    entries: Entries,
    user: Seq<char>,
    other: Seq<char>,
    key: Seq<char>,
    other_key: Seq<char>,
    body: Seq<char>,
    other_body: Seq<char>,
    recorded: RecordedView,
    now: u128,
)
    requires
        user != other,
    ensures
        lookup(after_begin(entries, (user, key), body, now), (other, other_key), other_body)
            == lookup(entries, (other, other_key), other_body),
        lookup(
            after_finish(entries, (user, key), body, recorded, now),
            (other, other_key),
            other_body,
        ) == lookup(entries, (other, other_key), other_body),
        lookup(after_abandon(entries, (user, key)), (other, other_key), other_body) == lookup(
            entries,
            (other, other_key),
            other_body,
        ),
{
}

/// Releasing a reservation frees the key at once.
pub proof fn law_an_abandoned_key_is_free(
    entries: Entries,
    name: (Seq<char>, Seq<char>),
    body: Seq<char>,
    other_body: Seq<char>,
    now: u128,
)
    requires
        !entries.contains_key(name),
    ensures
        lookup(
            after_abandon(after_begin(entries, name, body, now), name),
            name,
            other_body,
        ) is Reserved,
{
}

/// A recorded outcome is never released.
pub proof fn law_a_recorded_outcome_survives_abandon(
    entries: Entries,
    name: (Seq<char>, Seq<char>),
    body: Seq<char>,
    recorded: RecordedView,
    now: u128,
)
    ensures
        after_abandon(after_finish(entries, name, body, recorded, now), name) == after_finish(
            entries,
            name,
            body,
            recorded,
            now,
        ),
{
}

/// Which keys count, said of each: a reservation for the reservation's time, a
/// recorded outcome for the retention, and none is changed by the other's lapsing.
pub proof fn law_keys_count_for_their_time(
    entries: Entries,
    name: (Seq<char>, Seq<char>),
    retention: Span,
    timeout: Span,
    now: u128,
)
    ensures
        !entries.contains_key(name) ==> !live(entries, retention, timeout, now).contains_key(name),
        live(entries, retention, timeout, now).contains_key(name) ==> live(
            entries,
            retention,
            timeout,
            now,
        )[name] == entries[name],
        entries.contains_key(name) && (entries[name] matches EntryView::InFlight { since, .. }
            && since <= now) ==> (live(entries, retention, timeout, now).contains_key(name) <==> now
            < entries[name]->InFlight_since + timeout.nanos),
        entries.contains_key(name) && (entries[name] matches EntryView::Complete { at, .. } && at
            <= now) ==> (live(entries, retention, timeout, now).contains_key(name) <==> now
            < entries[name]->Complete_at + retention.nanos),
{
}

/// What is done with one key says nothing about another: not another user's, and
/// not another of the same user.
pub proof fn law_keys_are_apart(
    entries: Entries,
    name: (Seq<char>, Seq<char>),
    other: (Seq<char>, Seq<char>),
    body: Seq<char>,
    recorded: RecordedView,
    now: u128,
)
    requires
        name.0 != other.0 || name.1 != other.1,
    ensures
        after_begin(entries, name, body, now).remove(name) == entries.remove(name),
        after_finish(entries, name, body, recorded, now).remove(name) == entries.remove(name),
        after_abandon(entries, name).remove(name) == entries.remove(name),
        lookup(after_begin(entries, name, body, now), other, body) == lookup(entries, other, body),
        lookup(after_finish(entries, name, body, recorded, now), other, body) == lookup(
            entries,
            other,
            body,
        ),
        lookup(after_abandon(entries, name), other, body) == lookup(entries, other, body),
{
    assert(after_begin(entries, name, body, now).remove(name) =~= entries.remove(name));
    assert(after_finish(entries, name, body, recorded, now).remove(name) =~= entries.remove(name));
    assert(after_abandon(entries, name).remove(name) =~= entries.remove(name));
}

/// A key keeps to the body it was first presented with: while its reservation or
/// its outcome counts, a body with another fingerprint is refused.
pub proof fn law_a_key_keeps_to_its_body(
    entries: Entries,
    name: (Seq<char>, Seq<char>),
    body: Seq<char>,
    other_body: Seq<char>,
    recorded: RecordedView,
    retention: Span,
    timeout: Span,
    at: u128,
    then: u128,
)
    requires
        at <= then,
        fingerprint_of(body) != fingerprint_of(other_body),
    ensures
        then < at + retention.nanos ==> lookup(
            live(after_finish(entries, name, body, recorded, at), retention, timeout, then),
            name,
            other_body,
        ) is BodyMismatch,
        !entries.contains_key(name) && then < at + timeout.nanos ==> lookup(
            live(after_begin(entries, name, body, at), retention, timeout, then),
            name,
            other_body,
        ) is BodyMismatch,
{
}

} // verus!
