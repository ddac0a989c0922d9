//! In-memory [`ProfileRepository`], the default backend.
//!
//! A record keeps every accepted revision, and beside them the projection that
//! readers are handed: it is rebuilt only when a write is accepted, so a
//! read costs no more than sharing it.
//!
//! # Sharding
//!
//! One store behind one lock is correct, and it is also a single cache line
//! that every core touches on every request. A deployment holds several stores
//! and gives each user one of them: [`shard_count`] says how many, and
//! [`shard_of`] which.

use crate::common::dto::{Profile, ProfileInput};
use crate::common::time::{asked_about, now_ms};
use crate::common::user_id::UserId;
use crate::common::version::Version;
use crate::profile::store::{
    accepted, after_create, after_update, create_answer, current, history_view, is_history,
    lemma_history_push, project, projection, revision_at, update_answer, Histories,
    ProfileRepository, Revision, RevisionView, StoreError, Update,
};
use std::sync::Arc;
use vstd::hash_map::StringHashMap;
use vstd::prelude::*;

verus! {

/// Four shards per core, which keeps unrelated keys off each other's cache
/// lines without spending a lock per profile; eight cores are assumed where
/// their number is unknown.
pub fn default_shards(cores: Option<usize>) -> (r: usize)
    requires
        cores matches Some(cores) ==> cores * 4 <= usize::MAX,
    ensures
        r == match cores {
            Some(cores) => cores * 4,
            None => 32,
        },
{
    match cores {
        Some(cores) => cores * 4,
        None => 32,
    }
}

/// Whether `n` is a power of two.
pub open spec fn is_power_of_two(n: int) -> bool {
    exists|k: nat| n == #[trigger] vstd::arithmetic::power2::pow2(k)
}

/// The number of shards for a wanted number: the least power of two that is at
/// least as large, so that a mask selects a shard instead of a division.
pub fn shard_count(wanted: usize) -> (r: usize)
    requires
        wanted <= usize::MAX / 2 + 1,
    ensures
        is_power_of_two(r as int),
        r >= wanted,
        r > 1 ==> r / 2 < wanted,
        r == 1 || wanted > 1,
{
    let mut count: usize = 1;
    proof {
        vstd::arithmetic::power2::lemma2_to64();
        assert(count == vstd::arithmetic::power2::pow2(0));
    }
    let ghost mut k: nat = 0;
    while count < wanted
        invariant
            wanted <= usize::MAX / 2 + 1,
            count >= 1,
            count == vstd::arithmetic::power2::pow2(k),
            count > 1 ==> count / 2 < wanted,
            count == 1 || wanted > 1,
        decreases
                if count < wanted {
                    wanted - count
                } else {
                    0
                },
    {
        proof {
            vstd::arithmetic::power2::lemma_pow2_unfold(k + 1);
            k = k + 1;
        }
        count = count * 2;
    }
    count
}

/// The shard that a hash selects: the high bits count, because the low bits of
/// this hash are the least mixed.
pub open spec fn shard_index(hash: u64, mask: usize) -> usize {
    ((hash >> 32) as usize) & mask
}

/// The shard that a hash selects under a mask.
pub fn select_shard(hash: u64, mask: usize) -> (r: usize)
    ensures
        r == shard_index(hash, mask),
        r <= mask,
{
    let high: usize = (hash >> 32) as usize;
    assert(high & mask <= mask) by (bit_vector);
    high & mask
}

/// Calls `rustc_hash::FxBuildHasher` on a text. The hash depends on the width
/// of the machine's words, so nothing is claimed of it.
#[verifier::external_body]
fn fx_hash(text: &str) -> (r: u64) {
    std::hash::BuildHasher::hash_one(&rustc_hash::FxBuildHasher, text)
}

/// Whether a text was seen to hash to this: a call of the hasher gave it.
pub closed spec fn is_hash_of(text: Seq<char>, hash: u64) -> bool {
    exists|told: &str| #[trigger] call_ensures(fx_hash, (told,), hash) && told@ == text
}

/// The shard that owns a user's profile, among `mask + 1`.
pub fn shard_of(user_id: &UserId, mask: usize) -> (r: usize)
    ensures
        r <= mask,
        exists|hash: u64|
            is_hash_of(user_id@, hash) && r == #[trigger] shard_index(hash, mask),
{
    let hash: u64 = asked_about(fx_hash, user_id.as_str());
    assert(is_hash_of(user_id@, hash));
    select_shard(hash, mask)
}

/// A profile's full history, plus the projection readers are handed.
struct Record {
    current: Arc<Profile>,
    revisions: Vec<Revision>,
}

/// The record of `user` holds a history, and hands out the projection of its
/// newest revision.
spec fn is_record(user: Seq<char>, record: Record) -> bool {
    &&& is_history(history_view(record.revisions@))
    &&& record.current@ == projection(user, history_view(record.revisions@).last())
}

/// Profiles held in memory, keyed by owner.
pub struct InMemoryProfiles {
    slots: StringHashMap<usize>,
    records: Vec<Record>,
}

impl InMemoryProfiles {
    spec fn record(&self, user: Seq<char>) -> Record {
        self.records@[self.slots@[user] as int]
    }

    spec fn keeps_records(&self) -> bool {
        &&& forall|user: Seq<char>| #[trigger]
            self.slots@.contains_key(user) ==> self.slots@[user] < self.records@.len() && is_record(
                user,
                self.record(user),
            )
        &&& forall|a: Seq<char>, b: Seq<char>| #[trigger]
            self.slots@.contains_key(a) && #[trigger] self.slots@.contains_key(b) && a != b
                ==> self.slots@[a] != self.slots@[b]
    }

    /// Creates an empty store.
    #[must_use]
    pub fn new() -> (r: InMemoryProfiles)
        ensures
            r.in_order(),
            r.histories() == Histories::empty(),
    {
        InMemoryProfiles { slots: StringHashMap::new(), records: Vec::new() }
    }

    /// Creates the empty stores of a sharded one: `shards` of them, rounded up
    /// to a power of two.
    #[must_use]
    pub fn with_shards(shards: usize) -> (r: Vec<InMemoryProfiles>)
        requires
            shards <= usize::MAX / 2 + 1,
        ensures
            is_power_of_two(r@.len() as int),
            r@.len() >= shards,
            r@.len() > 1 ==> r@.len() / 2 < shards,
            r@.len() == 1 || shards > 1,
            forall|i: int|
                0 <= i < r@.len() ==> (#[trigger] r@[i]).in_order() && r@[i].histories()
                    == Histories::empty(),
    {
        let count: usize = shard_count(shards);
        let mut r: Vec<InMemoryProfiles> = Vec::new();
        while r.len() < count
            invariant
                r.len() <= count,
                forall|i: int|
                    0 <= i < r@.len() ==> (#[trigger] r@[i]).in_order() && r@[i].histories()
                        == Histories::empty(),
            decreases count - r.len(),
        {
            r.push(InMemoryProfiles::new());
        }
        r
    }

    /// Reads the current projection.
    #[must_use]
    pub fn read(&self, user_id: &UserId) -> (r: Option<Arc<Profile>>)
        requires
            self.in_order(),
        ensures
            match r {
                Some(profile) => current(self.histories(), user_id@) == Some(profile@),
                None => current(self.histories(), user_id@) is None,
            },
    {
        match self.slots.get(user_id.as_str()) {
            Some(slot) => Some(self.records[*slot].current.clone()),
            None => None,
        }
    }

    /// Creates a profile at a reading of the clock, unless one exists.
    pub fn create_at(&mut self, user_id: &UserId, input: ProfileInput, now: u64) -> (r: Option<
        Arc<Profile>,
    >)
        requires
            old(self).in_order(),
        ensures
            final(self).in_order(),
            final(self).histories() == after_create(old(self).histories(), user_id@, input@, now),
            match r {
                Some(profile) => create_answer(old(self).histories(), user_id@, input@) == Some(
                    profile@,
                ),
                None => create_answer(old(self).histories(), user_id@, input@) is None,
            },
    {
        if self.slots.contains_key(user_id.as_str()) {
            return None;
        }
        let first = revision_at(Version::initial(), input, now);
        let profile = Arc::new(project(user_id, &first));
        let mut revisions: Vec<Revision> = Vec::new();
        let ghost said = first@;
        revisions.push(first);
        assert(history_view(revisions@) == seq![said]);
        let slot: usize = self.records.len();
        let ghost stored = revisions@;
        self.records.push(Record { current: profile.clone(), revisions });
        self.slots.insert(user_id.to_string(), slot);
        proof {
            let user = user_id@;
            assert forall|other: Seq<char>| #[trigger]
                old(self).slots@.contains_key(other) implies self.record(other) == old(
                self,
            ).record(other) by {}
            assert(self.record(user).revisions@ == stored);
            assert(self.histories() =~= after_create(old(self).histories(), user, input@, now));
        }
        Some(profile)
    }

    /// Replaces a profile at a reading of the clock, only if it is still at
    /// `expected_version`. Fails only where that is the last version of all.
    pub fn update_at(
        &mut self,
        user_id: &UserId,
        expected_version: Version,
        input: ProfileInput,
        now: u64,
    ) -> (r: Result<Update, StoreError>)
        requires
            old(self).in_order(),
        ensures
            final(self).in_order(),
            match r {
                Ok(answer) => update_answer(
                    old(self).histories(),
                    user_id@,
                    expected_version.0,
                    input@,
                    answer,
                ) && final(self).histories() == after_update(
                    old(self).histories(),
                    user_id@,
                    expected_version.0,
                    input@,
                    now,
                ),
                Err(error) => error is VersionExhausted && expected_version.0 == u64::MAX
                    && current(old(self).histories(), user_id@) is Some && current(
                    old(self).histories(),
                    user_id@,
                )->0.version == u64::MAX && final(self).histories() == old(self).histories(),
            },
    {
        let slot: usize = match self.slots.get(user_id.as_str()) {
            Some(slot) => *slot,
            None => {
                return Ok(Update::Missing);
            },
        };
        let current_version = self.records[slot].current.version;
        if current_version != expected_version {
            return Ok(Update::Stale { current_version });
        }
        let next = match current_version.checked_next() {
            Some(next) => next,
            None => {
                return Err(StoreError::VersionExhausted);
            },
        };
        let applied = revision_at(next, input, now);
        let profile = Arc::new(project(user_id, &applied));
        let record = &mut self.records[slot];
        let ghost before = record.revisions@;
        let ghost written = applied;
        record.revisions.push(applied);
        record.current = profile.clone();
        proof {
            let user = user_id@;
            lemma_history_push(before, written);
            assert(self.slots@ == old(self).slots@);
            assert forall|other: Seq<char>| #[trigger]
                old(self).slots@.contains_key(other) && other != user implies self.record(other)
                == old(self).record(other) by {}
            assert(history_view(self.record(user).revisions@) == history_view(before).push(
                written@,
            ));
            assert(self.histories() =~= after_update(
                old(self).histories(),
                user,
                expected_version.0,
                input@,
                now,
            ));
        }
        Ok(Update::Applied(profile))
    }
}

impl Default for InMemoryProfiles {
    fn default() -> (r: InMemoryProfiles)
        ensures
            r.in_order(),
            r.histories() == Histories::empty(),
    {
        InMemoryProfiles::new()
    }
}

impl ProfileRepository for InMemoryProfiles {
    closed spec fn in_order(&self) -> bool {
        self.keeps_records()
    }

    closed spec fn histories(&self) -> Histories {
        Map::new(
            |user: Seq<char>| self.slots@.contains_key(user),
            |user: Seq<char>| history_view(self.record(user).revisions@),
        )
    }

    open spec fn can_fail(&self) -> bool {
        false
    }

    proof fn keeps_histories(&self) {
        assert forall|user: Seq<char>| #[trigger]
            self.histories().contains_key(user) implies is_history(self.histories()[user]) by {
            assert(self.slots@.contains_key(user));
        }
    }

    fn create(&mut self, user_id: &UserId, input: ProfileInput) -> (r: Result<
        Option<Arc<Profile>>,
        StoreError,
    >)
        ensures
            r is Ok,
    {
        let now: u64 = now_ms();
        Ok(self.create_at(user_id, input, now))
    }

    fn get(&self, user_id: &UserId) -> (r: Result<Option<Arc<Profile>>, StoreError>)
        ensures
            r is Ok,
    {
        Ok(self.read(user_id))
    }

    fn update(&mut self, user_id: &UserId, expected_version: Version, input: ProfileInput) -> (r:
        Result<Update, StoreError>)
        ensures
            r is Err <==> expected_version.0 == u64::MAX && (current(
                old(self).histories(),
                user_id@,
            ) matches Some(profile) && profile.version == u64::MAX),
            r is Err ==> r->Err_0 is VersionExhausted,
    {
        let now: u64 = now_ms();
        self.update_at(user_id, expected_version, input, now)
    }

    fn history(&self, user_id: &UserId) -> (r: Result<Vec<Revision>, StoreError>)
        ensures
            r is Ok,
    {
        let mut all: Vec<Revision> = Vec::new();
        match self.slots.get(user_id.as_str()) {
            Some(slot) => {
                let revisions = &self.records[*slot].revisions;
                let mut i: usize = 0;
                while i < revisions.len()
                    invariant
                        i <= revisions.len(),
                        history_view(all@) == history_view(revisions@).take(i as int),
                    decreases revisions.len() - i,
                {
                    let revision = revisions[i].clone();
                    proof {
                        lemma_history_push(all@, revision);
                    }
                    all.push(revision);
                    assert(history_view(all@) == history_view(revisions@).take(i + 1));
                    i = i + 1;
                }
                assert(history_view(revisions@).take(i as int) == history_view(revisions@));
            },
            None => {
                assert(history_view(all@) == Seq::<RevisionView>::empty());
            },
        }
        Ok(all)
    }
}

/// Nothing counts as the hash of a text that the hasher did not give for it.
proof fn law_hashes_come_from_the_hasher(text: Seq<char>, hash: u64)
    ensures
        is_hash_of(text, hash) ==> exists|told: &str|
            told@ == text && #[trigger] call_ensures(fx_hash, (told,), hash),
{
}

/// A mask of the shards' number less one selects by the hash's high half alone:
/// the remainder of that half by the number of shards.
pub proof fn law_shards_are_selected_by_the_high_half(hash: u64, low: u64, mask: usize)
    requires
        low < 0x1_0000_0000,
    ensures
        shard_index(hash, mask) <= mask,
        shard_index(hash, mask) == shard_index(
            (hash / 0x1_0000_0000 * 0x1_0000_0000 + low) as u64,
            mask,
        ),
        shard_index(hash, 0) == 0,
        shard_index(hash, 1) == hash / 0x1_0000_0000 % 2,
        shard_index(hash, 15) == hash / 0x1_0000_0000 % 16,
        mask == 0xffff_ffff ==> shard_index(hash, mask) == hash / 0x1_0000_0000,
{
    let high = (hash >> 32) as usize;
    let again = (hash / 0x1_0000_0000 * 0x1_0000_0000 + low) as u64;
    assert(again >> 32 == hash >> 32) by (bit_vector)
        requires
            low < 0x1_0000_0000,
            again == (hash / 0x1_0000_0000 * 0x1_0000_0000 + low) as u64,
    ;
    assert(hash >> 32 == hash / 0x1_0000_0000) by (bit_vector);
    assert(high & mask <= mask) by (bit_vector);
    assert(high & 0 == 0) by (bit_vector);
    assert(high & 1 == high % 2) by (bit_vector);
    assert(high & 15 == high % 16) by (bit_vector);
    assert(high & 0xffff_ffff == high) by (bit_vector)
        requires
            high <= 0xffff_ffff,
    ;
}

/// A power of two halves down to one: it is one, or it is even and its half is a
/// power of two.
pub proof fn law_powers_of_two_halve(n: int)
    requires
        is_power_of_two(n),
    ensures
        n >= 1,
        n == 1 || (n % 2 == 0 && is_power_of_two(n / 2)),
{
    let k = choose|k: nat| n == #[trigger] vstd::arithmetic::power2::pow2(k);
    vstd::arithmetic::power2::lemma_pow2_pos(k);
    if k == 0 {
        vstd::arithmetic::power2::lemma2_to64();
    } else {
        vstd::arithmetic::power2::lemma_pow2_unfold(k);
        assert(n / 2 == vstd::arithmetic::power2::pow2((k - 1) as nat));
    }
}

} // verus!
