//! Profile storage.
//!
//! # The hazard that no lock can fix
//!
//! Two clients read version 4, both edit, both write. The second silently
//! erases the first and *both* are told that they succeeded. The window spans
//! two round-trips with human think-time in between, so holding a lock across
//! it is not an option.
//!
//! The answer is optimistic concurrency control: every record carries a
//! [`Version`], a writer states the version it believes it is replacing, and
//! the store refuses the write if that belief is stale.
//!
//! # Why this is a trait
//!
//! Because the guarantee has to outlive one process. Expressing storage as a
//! trait forces the concurrency contract to be stated independently of where
//! the bytes live; [`memory`] keeps it in a map, and [`sqlite`] keeps it with
//! an `UPDATE ... WHERE version = ?` and a row count.

pub mod laws;
pub mod memory;
pub mod sqlite;
pub mod tables;

use crate::common::dto::{InputView, Profile, ProfileInput, ProfileView};
use crate::common::json::{json_quoted, json_string};
use crate::common::text::{decimal, decimal_text};
use crate::common::reading::{
    is_whole, lemma_braced_is_whole, lemma_first_member_listed, lemma_next_member_listed,
    lemma_object_is_read, lemma_values_are_whole, member, members_read, outside,
};
use crate::common::time::is_ms_reading;
use crate::common::user_id::UserId;
use crate::common::version::{Version, INITIAL};
use std::sync::Arc;
use vstd::prelude::*;

pub use memory::InMemoryProfiles;

verus! {

/// One accepted write, retained permanently.
///
/// A profile is a projection of its revisions, not a cell that gets
/// overwritten. An address change is a fraud and KYC signal, so discarding the
/// prior value destroys evidence a bank is required to keep.
#[derive(Debug, PartialEq, Eq)]
pub struct Revision {
    /// The version this write produced.
    pub version: Version,
    /// The address as of this revision.
    pub address: String,
    /// The phone number as of this revision.
    pub phone_number: String,
    /// When the write was accepted, in milliseconds since the Unix epoch.
    pub recorded_at_ms: u64,
}

/// What a revision says.
#[verifier::ext_equal]
pub struct RevisionView {
    /// The version this write produced.
    pub version: u64,
    /// The address as of this revision.
    pub address: Seq<char>,
    /// The phone number as of this revision.
    pub phone_number: Seq<char>,
    /// When the write was accepted, in milliseconds since the Unix epoch.
    pub recorded_at_ms: u64,
}

impl View for Revision {
    type V = RevisionView;

    open spec fn view(&self) -> RevisionView {
        RevisionView {
            version: self.version.0,
            address: self.address@,
            phone_number: self.phone_number@,
            recorded_at_ms: self.recorded_at_ms,
        }
    }
}

impl Clone for Revision {
    fn clone(&self) -> (r: Revision)
        ensures
            r@ == self@,
    {
        Revision {
            version: self.version,
            address: self.address.clone(),
            phone_number: self.phone_number.clone(),
            recorded_at_ms: self.recorded_at_ms,
        }
    }
}

/// What a list of revisions says.
pub open spec fn history_view(revisions: Seq<Revision>) -> Seq<RevisionView> {
    Seq::new(revisions.len(), |i: int| revisions[i]@)
}

/// One more revision adds what it says to the end.
pub proof fn lemma_history_push(revisions: Seq<Revision>, revision: Revision)
    ensures
        history_view(revisions.push(revision)) == history_view(revisions).push(revision@),
{
    assert(history_view(revisions.push(revision)) =~= history_view(revisions).push(revision@));
}

impl RevisionView {
    /// The JSON of the revision.
    pub open spec fn json(self) -> Seq<char> {
        "{\"version\":"@ + decimal(self.version as nat) + ",\"address\":"@ + json_string(
            self.address,
        ) + ",\"phone_number\":"@ + json_string(self.phone_number) + ",\"recorded_at_ms\":"@
            + decimal(self.recorded_at_ms as nat) + "}"@
    }
}

impl Revision {
    /// Renders the revision as JSON.
    pub fn to_json(&self) -> (r: String)
        ensures
            r@ == self@.json(),
    {
        let mut r: String = "{\"version\":".to_owned();
        r.append(decimal_text(self.version.get()).as_str());
        r.append(",\"address\":");
        r.append(json_quoted(self.address.as_str()).as_str());
        r.append(",\"phone_number\":");
        r.append(json_quoted(self.phone_number.as_str()).as_str());
        r.append(",\"recorded_at_ms\":");
        r.append(decimal_text(self.recorded_at_ms).as_str());
        r.append("}");
        r
    }
}

/// Result of an attempted update.
///
/// A dedicated enum rather than an error, because "your version was stale" is
/// an ordinary expected outcome the caller translates into `412`, not an error
/// condition.
#[derive(Debug, Clone, PartialEq, Eq)]
pub enum Update {
    /// The write was applied; contains the profile at its new version.
    Applied(Arc<Profile>),
    /// The caller's `If-Match` version did not match the stored one.
    Stale {
        /// The version actually stored, so the client can re-read and retry.
        current_version: Version,
    },
    /// No profile exists for this user.
    Missing,
}

/// Why a storage operation could not complete.
#[derive(Debug)]
pub enum StoreError {
    /// The version counter cannot be incremented further.
    ///
    /// A hard failure rather than a saturating increment: at saturation every
    /// stale version would silently become valid again, which is a correctness
    /// failure rather than a capacity one.
    VersionExhausted,
    /// The backend itself failed, for the reason given.
    Backend(String),
}

impl StoreError {
    /// What to write in the log.
    pub fn to_string(&self) -> (r: String)
        ensures
            r@ == match self {
                StoreError::VersionExhausted => "version counter exhausted"@,
                StoreError::Backend(_) => "storage backend failed"@,
            },
    {
        match self {
            StoreError::VersionExhausted => "version counter exhausted".to_owned(),
            StoreError::Backend(_) => "storage backend failed".to_owned(),
        }
    }
}

/// Every accepted write of every user, oldest first.
pub type Histories = Map<Seq<char>, Seq<RevisionView>>;

/// The projection that a client sees of a revision.
pub open spec fn projection(user: Seq<char>, revision: RevisionView) -> ProfileView {
    ProfileView {
        user_id: user,
        address: revision.address,
        phone_number: revision.phone_number,
        version: revision.version,
    }
}

/// The revision that an accepted write produces.
pub open spec fn accepted(version: u64, input: InputView, now: u64) -> RevisionView {
    RevisionView {
        version,
        address: input.address,
        phone_number: input.phone_number,
        recorded_at_ms: now,
    }
}

/// A history counts its versions up from the first, and is never empty.
pub open spec fn is_history(history: Seq<RevisionView>) -> bool {
    &&& history.len() > 0
    &&& forall|i: int| 0 <= i < history.len() ==> (#[trigger] history[i]).version == INITIAL + i
}

/// Every stored history counts up from the first version.
pub open spec fn are_histories(all: Histories) -> bool {
    forall|user: Seq<char>| #[trigger] all.contains_key(user) ==> is_history(all[user])
}

/// The current projection of a user's profile.
pub open spec fn current(all: Histories, user: Seq<char>) -> Option<ProfileView> {
    if all.contains_key(user) {
        Some(projection(user, all[user].last()))
    } else {
        None
    }
}

/// Every accepted write of one user.
pub open spec fn history_of(all: Histories, user: Seq<char>) -> Seq<RevisionView> {
    if all.contains_key(user) {
        all[user]
    } else {
        Seq::empty()
    }
}

/// What creating a profile leaves behind.
pub open spec fn after_create(all: Histories, user: Seq<char>, input: InputView, now: u64)
    -> Histories {
    if all.contains_key(user) {
        all
    } else {
        all.insert(user, seq![accepted(INITIAL, input, now)])
    }
}

/// What creating a profile answers: the profile, unless there is one already.
pub open spec fn create_answer(all: Histories, user: Seq<char>, input: InputView) -> Option<
    ProfileView,
> {
    if all.contains_key(user) {
        None
    } else {
        Some(projection(user, accepted(INITIAL, input, 0)))
    }
}

/// Whether an update is applied: the profile exists, is still at the version
/// that the writer believes it is replacing, and can count on.
pub open spec fn is_applied(all: Histories, user: Seq<char>, expected: u64) -> bool {
    current(all, user) matches Some(profile) && profile.version == expected && expected < u64::MAX
}

/// What an update leaves behind.
pub open spec fn after_update(
    all: Histories,
    user: Seq<char>,
    expected: u64,
    input: InputView,
    now: u64,
) -> Histories {
    if is_applied(all, user, expected) {
        all.insert(user, all[user].push(accepted((expected + 1) as u64, input, now)))
    } else {
        all
    }
}

/// Whether `answer` is what an update of `all` says: the profile at its new
/// version where the update is applied, the stored version where the caller's
/// is stale, and that there is nothing to update otherwise.
pub open spec fn update_answer(
    all: Histories,
    user: Seq<char>,
    expected: u64,
    input: InputView,
    answer: Update,
) -> bool {
    match answer {
        Update::Applied(profile) => is_applied(all, user, expected) && profile@ == projection(
            user,
            accepted((expected + 1) as u64, input, 0),
        ),
        Update::Stale { current_version } => current(all, user) matches Some(profile)
            && profile.version == current_version.0 && current_version.0 != expected,
        Update::Missing => current(all, user) is None,
    }
}

/// The last counter that every backend can write: a backend may count in signed
/// 64-bit integers, and then cannot advance from here.
pub const LAST_PORTABLE: u64 = 0x7fff_ffff_ffff_ffff;

/// Storage for profiles, with compare-and-swap update semantics.
///
/// Implementations must guarantee that [`Self::update`] compares the stored
/// version and writes atomically with respect to other updates of the same
/// profile. Everything the service promises rests on that; here an update has
/// the store to itself.
pub trait ProfileRepository {
    /// Whether the store is in order.
    spec fn in_order(&self) -> bool;

    /// Every accepted write that the store holds.
    spec fn histories(&self) -> Histories;

    /// Whether the backend can fail; a store that only computes cannot.
    spec fn can_fail(&self) -> bool;

    /// A store in order keeps every history counting up from the first version.
    proof fn keeps_histories(&self)
        requires
            self.in_order(),
        ensures
            are_histories(self.histories()),
    ;

    /// Creates a profile at [`Version::initial`], or returns [`None`] if one
    /// already exists. Fails only where the backend does, and then changes
    /// nothing.
    fn create(&mut self, user_id: &UserId, input: ProfileInput) -> (r: Result<
        Option<Arc<Profile>>,
        StoreError,
    >)
        requires
            old(self).in_order(),
        ensures
            final(self).in_order(),
            final(self).can_fail() == old(self).can_fail(),
            match r {
                Ok(Some(profile)) => create_answer(old(self).histories(), user_id@, input@)
                    == Some(profile@),
                Ok(None) => create_answer(old(self).histories(), user_id@, input@) is None,
                Err(error) => error is Backend && old(self).can_fail(),
            },
            match r {
                Ok(_) => exists|now: u64|
                    is_ms_reading(now) && final(self).histories() == #[trigger] after_create(
                        old(self).histories(),
                        user_id@,
                        input@,
                        now,
                    ),
                Err(_) => final(self).histories() == old(self).histories(),
            },
    ;

    /// Reads the current projection of a profile. Fails only where the backend
    /// does.
    fn get(&self, user_id: &UserId) -> (r: Result<Option<Arc<Profile>>, StoreError>)
        requires
            self.in_order(),
        ensures
            match r {
                Ok(Some(profile)) => current(self.histories(), user_id@) == Some(profile@),
                Ok(None) => current(self.histories(), user_id@) is None,
                Err(error) => error is Backend && self.can_fail(),
            },
    ;

    /// Replaces a profile only if it is still at `expected_version`.
    ///
    /// Fails where the backend does, or with [`StoreError::VersionExhausted`]
    /// where the profile is at `expected_version` and its counter cannot
    /// advance, and then changes nothing.
    fn update(&mut self, user_id: &UserId, expected_version: Version, input: ProfileInput) -> (r:
        Result<Update, StoreError>)
        requires
            old(self).in_order(),
        ensures
            final(self).in_order(),
            final(self).can_fail() == old(self).can_fail(),
            match r {
                Ok(answer) => update_answer(
                    old(self).histories(),
                    user_id@,
                    expected_version.0,
                    input@,
                    answer,
                ) && exists|now: u64|
                    is_ms_reading(now) && final(self).histories() == #[trigger] after_update(
                        old(self).histories(),
                        user_id@,
                        expected_version.0,
                        input@,
                        now,
                    ),
                Err(StoreError::VersionExhausted) => final(self).histories() == old(
                    self,
                ).histories() && expected_version.0 >= LAST_PORTABLE && (current(
                    old(self).histories(),
                    user_id@,
                ) matches Some(profile) && profile.version == expected_version.0),
                Err(StoreError::Backend(_)) => final(self).histories() == old(self).histories()
                    && old(self).can_fail(),
            },
    ;

    /// Every accepted write for this profile, oldest first. Fails only where
    /// the backend does.
    fn history(&self, user_id: &UserId) -> (r: Result<Vec<Revision>, StoreError>)
        requires
            self.in_order(),
        ensures
            match r {
                Ok(revisions) => history_view(revisions@) == history_of(
                    self.histories(),
                    user_id@,
                ),
                Err(error) => error is Backend && self.can_fail(),
            },
    ;
}

/// Builds the projection a client sees from a revision.
pub fn project(user_id: &UserId, revision: &Revision) -> (r: Profile)
    ensures
        r@ == projection(user_id@, revision@),
{
    Profile {
        user_id: user_id.clone(),
        address: revision.address.clone(),
        phone_number: revision.phone_number.clone(),
        version: revision.version,
    }
}

/// Builds the revision an accepted write produces, at a reading of the clock.
pub fn revision_at(version: Version, input: ProfileInput, now: u64) -> (r: Revision)
    ensures
        r@ == accepted(version.0, input@, now),
{
    Revision {
        version,
        address: input.address,
        phone_number: input.phone_number,
        recorded_at_ms: now,
    }
}

/// The members of the JSON of a revision, and that it is one item of an array.
proof fn lemma_revision_is_read(revision: RevisionView)
    ensures
        members_read(revision.json()) == Some(
            seq![
                member("version"@, decimal(revision.version as nat)),
                member("address"@, json_string(revision.address)),
                member("phone_number"@, json_string(revision.phone_number)),
                member("recorded_at_ms"@, decimal(revision.recorded_at_ms as nat)),
            ],
        ),
        is_whole(outside(), revision.json()),
{
    reveal_strlit("version");
    reveal_strlit("address");
    reveal_strlit("phone_number");
    reveal_strlit("recorded_at_ms");
    reveal_strlit("{\"version\":");
    reveal_strlit(",\"address\":");
    reveal_strlit(",\"phone_number\":");
    reveal_strlit(",\"recorded_at_ms\":");
    reveal_strlit("}");
    lemma_values_are_whole(revision.address, revision.version);
    lemma_values_are_whole(revision.phone_number, revision.recorded_at_ms);
    let version = member("version"@, decimal(revision.version as nat));
    let address = member("address"@, json_string(revision.address));
    let phone = member("phone_number"@, json_string(revision.phone_number));
    let at = member("recorded_at_ms"@, decimal(revision.recorded_at_ms as nat));
    lemma_first_member_listed("version"@, decimal(revision.version as nat));
    lemma_next_member_listed(version, seq![version], "address"@, json_string(revision.address));
    let two = version + seq![','] + address;
    assert(seq![version].push(address) =~= seq![version, address]);
    lemma_next_member_listed(
        two,
        seq![version, address],
        "phone_number"@,
        json_string(revision.phone_number),
    );
    let three = two + seq![','] + phone;
    assert(seq![version, address].push(phone) =~= seq![version, address, phone]);
    lemma_next_member_listed(
        three,
        seq![version, address, phone],
        "recorded_at_ms"@,
        decimal(revision.recorded_at_ms as nat),
    );
    let all = three + seq![','] + at;
    assert(seq![version, address, phone].push(at) =~= seq![version, address, phone, at]);
    assert(revision.json() =~= seq!['{'] + all + seq!['}']);
    lemma_object_is_read(all);
    lemma_braced_is_whole(all);
}

/// Read as JSON, a revision is an object of four members: its version, address,
/// phone number and time, each under its name.
pub proof fn law_revision_reads_back(revision: RevisionView)
    ensures
        members_read(revision.json()) == Some(
            seq![
                member("version"@, decimal(revision.version as nat)),
                member("address"@, json_string(revision.address)),
                member("phone_number"@, json_string(revision.phone_number)),
                member("recorded_at_ms"@, decimal(revision.recorded_at_ms as nat)),
            ],
        ),
{
    lemma_revision_is_read(revision);
}

/// The JSON of a revision is one item, wherever it stands in an array.
pub proof fn lemma_revision_is_one_item(revision: RevisionView)
    ensures
        is_whole(outside(), revision.json()),
{
    lemma_revision_is_read(revision);
}

/// Histories are seen whole: every revision of them, in its place.
pub proof fn law_histories_are_seen_whole(revisions: Seq<Revision>, at: int)
    ensures
        history_view(revisions).len() == revisions.len(),
        0 <= at < revisions.len() ==> {
            &&& history_view(revisions)[at].version == revisions[at].version.0
            &&& history_view(revisions)[at].address == revisions[at].address@
            &&& history_view(revisions)[at].phone_number == revisions[at].phone_number@
            &&& history_view(revisions)[at].recorded_at_ms == revisions[at].recorded_at_ms
        },
{
}

} // verus!
