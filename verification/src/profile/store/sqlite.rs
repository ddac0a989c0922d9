//! [`ProfileRepository`](crate::profile::store::ProfileRepository) kept in
//! SQLite, as far as the database is not asked.
//!
//! The compare-and-swap that [`memory`](crate::profile::store::memory) performs
//! with a version check is here a single statement:
//!
//! ```sql
//! UPDATE profiles SET address = ?, phone_number = ?, version = ?
//!  WHERE user_id = ? AND version = ?
//! ```
//!
//! The row count decides the outcome. One row means the caller's version was
//! current and the write landed. Zero rows means either the profile is gone or
//! someone else got there first — indistinguishable from the count alone, which
//! is why the follow-up read happens inside the same transaction.
//!
//! Whoever holds the connection performs one [`Action`] after another and hands
//! back an [`Event`]; which statement comes next, with which parameters, and
//! what the operation answers is decided here. [`crate::profile::store::tables`]
//! states what the statements do, and that they keep the store's contract.

use crate::common::dto::{InputView, Profile, ProfileInput, ProfileView};
use crate::common::user_id::UserId;
use crate::common::version::{Version, INITIAL};
use crate::profile::store::{Revision, RevisionView, StoreError, Update};
use std::sync::Arc;
use vstd::prelude::*;

verus! {

/// Creates the two tables. The row in `profiles` is a projection of the rows in
/// `profile_revisions`, which are never updated or deleted.
pub const SCHEMA: &'static str = "
    PRAGMA foreign_keys = ON;

    CREATE TABLE IF NOT EXISTS profiles (
        user_id      TEXT PRIMARY KEY,
        address      TEXT    NOT NULL,
        phone_number TEXT    NOT NULL,
        version      INTEGER NOT NULL
    );

    CREATE TABLE IF NOT EXISTS profile_revisions (
        user_id        TEXT    NOT NULL,
        version        INTEGER NOT NULL,
        address        TEXT    NOT NULL,
        phone_number   TEXT    NOT NULL,
        recorded_at_ms INTEGER NOT NULL,
        PRIMARY KEY (user_id, version)
    );
";

/// Starts a transaction that takes the write lock when it first writes.
pub const BEGIN: &'static str = "BEGIN DEFERRED";

/// Starts a transaction that takes the write lock up front, so that the
/// follow-up read that tells "stale" from "missing" cannot race another writer.
pub const BEGIN_IMMEDIATE: &'static str = "BEGIN IMMEDIATE";

/// Makes the writes of the transaction durable.
pub const COMMIT: &'static str = "COMMIT";

/// Undoes the writes of the transaction.
pub const ROLLBACK: &'static str = "ROLLBACK";

/// Inserts a profile unless there is one: `INSERT OR IGNORE` on the primary key
/// makes the existence check and the insert one atomic step.
pub const INSERT_PROFILE: &'static str =
    "INSERT OR IGNORE INTO profiles (user_id, address, phone_number, version)
     VALUES (?1, ?2, ?3, ?4)";

/// Appends one accepted write.
pub const INSERT_REVISION: &'static str = "INSERT INTO profile_revisions
        (user_id, version, address, phone_number, recorded_at_ms)
     VALUES (?1, ?2, ?3, ?4, ?5)";

/// Replaces a profile that is still at the expected version.
pub const UPDATE_PROFILE: &'static str = "UPDATE profiles
        SET address = ?1, phone_number = ?2, version = ?3
      WHERE user_id = ?4 AND version = ?5";

/// Reads the stored version.
pub const SELECT_VERSION: &'static str = "SELECT version FROM profiles WHERE user_id = ?1";

/// Reads the current projection.
pub const SELECT_PROFILE: &'static str =
    "SELECT address, phone_number, version FROM profiles WHERE user_id = ?1";

/// Reads every accepted write, oldest first.
pub const SELECT_REVISIONS: &'static str = "SELECT version, address, phone_number, recorded_at_ms
       FROM profile_revisions
      WHERE user_id = ?1
   ORDER BY version ASC";

/// The counter as SQLite's signed INTEGER holds it, if it does.
pub open spec fn sql_counter(counter: u64) -> Option<i64> {
    if counter <= i64::MAX {
        Some(counter as i64)
    } else {
        None
    }
}

/// SQLite's INTEGER is signed, so versions are stored as `i64`.
///
/// The conversion cannot fail below 2^63 writes to a single profile; treating
/// it as exhaustion rather than wrapping keeps the failure mode identical to
/// [`Version::checked_next`].
pub fn to_sql(version: Version) -> (r: Result<i64, StoreError>)
    ensures
        match r {
            Ok(raw) => sql_counter(version.0) == Some(raw),
            Err(error) => sql_counter(version.0) is None && error is VersionExhausted,
        },
{
    let counter: u64 = version.get();
    if counter <= i64::MAX as u64 {
        Ok(counter as i64)
    } else {
        Err(StoreError::VersionExhausted)
    }
}

/// The counter that a stored INTEGER stands for.
pub open spec fn counter_of(raw: i64) -> u64 {
    if raw < 0 {
        0
    } else {
        raw as u64
    }
}

/// Rebuilds a version from a stored counter, clamping a negative value to zero.
///
/// A negative version can only mean the row was written by something other than
/// this service; zero then fails every `If-Match`, which fails closed.
pub fn from_sql(raw: i64) -> (r: Version)
    ensures
        r.0 == counter_of(raw),
{
    let counter: u64 = if raw < 0 {
        0
    } else {
        raw as u64
    };
    Version::from_counter(counter)
}

/// One parameter of a statement.
#[derive(Debug, PartialEq, Eq)]
pub enum SqlValue {
    /// Text.
    Text(String),
    /// A counter.
    Integer(i64),
    /// A timestamp.
    Unsigned(u64),
}

/// What a parameter says.
pub enum SqlView {
    /// Text.
    Text(Seq<char>),
    /// A counter.
    Integer(i64),
    /// A timestamp.
    Unsigned(u64),
}

impl View for SqlValue {
    type V = SqlView;

    open spec fn view(&self) -> SqlView {
        match self {
            SqlValue::Text(text) => SqlView::Text(text@),
            SqlValue::Integer(value) => SqlView::Integer(*value),
            SqlValue::Unsigned(value) => SqlView::Unsigned(*value),
        }
    }
}

/// What a list of parameters says.
pub open spec fn params_view(params: Seq<SqlValue>) -> Seq<SqlView> {
    Seq::new(params.len(), |i: int| params[i]@)
}

/// What the database is to do next.
#[derive(Debug, PartialEq, Eq)]
pub enum Action {
    /// Start a transaction.
    Begin {
        /// Whether the write lock is taken up front.
        immediate: bool,
    },
    /// Insert the profile unless there is one.
    InsertProfile {
        /// Owner of the profile.
        user_id: UserId,
        /// What the profile says.
        input: ProfileInput,
        /// Its version.
        version: i64,
    },
    /// Append one accepted write.
    InsertRevision {
        /// Owner of the profile.
        user_id: UserId,
        /// What the write says.
        input: ProfileInput,
        /// The version it produced.
        version: i64,
        /// When it was accepted.
        recorded_at_ms: u64,
    },
    /// Replace the profile if it is still at the expected version.
    UpdateProfile {
        /// Owner of the profile.
        user_id: UserId,
        /// What the profile is to say.
        input: ProfileInput,
        /// The version it is to have.
        next: i64,
        /// The version it must have.
        expected: i64,
    },
    /// Read the stored version.
    ReadVersion {
        /// Owner of the profile.
        user_id: UserId,
    },
    /// Read the current projection.
    ReadProfile {
        /// Owner of the profile.
        user_id: UserId,
    },
    /// Read every accepted write, oldest first.
    ReadRevisions {
        /// Owner of the profile.
        user_id: UserId,
    },
    /// Make the transaction durable.
    Commit,
}

/// What an action says.
pub enum ActionView {
    /// Start a transaction.
    Begin {
        /// Whether the write lock is taken up front.
        immediate: bool,
    },
    /// Insert the profile unless there is one.
    InsertProfile {
        /// Owner of the profile.
        user: Seq<char>,
        /// What the profile says.
        input: InputView,
        /// Its version.
        version: i64,
    },
    /// Append one accepted write.
    InsertRevision {
        /// Owner of the profile.
        user: Seq<char>,
        /// What the write says.
        input: InputView,
        /// The version it produced.
        version: i64,
        /// When it was accepted.
        recorded_at_ms: u64,
    },
    /// Replace the profile if it is still at the expected version.
    UpdateProfile {
        /// Owner of the profile.
        user: Seq<char>,
        /// What the profile is to say.
        input: InputView,
        /// The version it is to have.
        next: i64,
        /// The version it must have.
        expected: i64,
    },
    /// Read the stored version.
    ReadVersion {
        /// Owner of the profile.
        user: Seq<char>,
    },
    /// Read the current projection.
    ReadProfile {
        /// Owner of the profile.
        user: Seq<char>,
    },
    /// Read every accepted write, oldest first.
    ReadRevisions {
        /// Owner of the profile.
        user: Seq<char>,
    },
    /// Make the transaction durable.
    Commit,
}

impl View for Action {
    type V = ActionView;

    open spec fn view(&self) -> ActionView {
        match self {
            Action::Begin { immediate } => ActionView::Begin { immediate: *immediate },
            Action::InsertProfile { user_id, input, version } => ActionView::InsertProfile {
                user: user_id@,
                input: input@,
                version: *version,
            },
            Action::InsertRevision { user_id, input, version, recorded_at_ms } =>
                ActionView::InsertRevision {
                    user: user_id@,
                    input: input@,
                    version: *version,
                    recorded_at_ms: *recorded_at_ms,
                },
            Action::UpdateProfile { user_id, input, next, expected } => ActionView::UpdateProfile {
                user: user_id@,
                input: input@,
                next: *next,
                expected: *expected,
            },
            Action::ReadVersion { user_id } => ActionView::ReadVersion { user: user_id@ },
            Action::ReadProfile { user_id } => ActionView::ReadProfile { user: user_id@ },
            Action::ReadRevisions { user_id } => ActionView::ReadRevisions { user: user_id@ },
            Action::Commit => ActionView::Commit,
        }
    }
}

impl ActionView {
    /// The statement that performs the action.
    pub open spec fn sql(self) -> Seq<char> {
        match self {
            ActionView::Begin { immediate } => if immediate {
                BEGIN_IMMEDIATE@
            } else {
                BEGIN@
            },
            ActionView::InsertProfile { .. } => INSERT_PROFILE@,
            ActionView::InsertRevision { .. } => INSERT_REVISION@,
            ActionView::UpdateProfile { .. } => UPDATE_PROFILE@,
            ActionView::ReadVersion { .. } => SELECT_VERSION@,
            ActionView::ReadProfile { .. } => SELECT_PROFILE@,
            ActionView::ReadRevisions { .. } => SELECT_REVISIONS@,
            ActionView::Commit => COMMIT@,
        }
    }

    /// The parameters of the statement, in order.
    pub open spec fn params(self) -> Seq<SqlView> {
        match self {
            ActionView::Begin { .. } => Seq::empty(),
            ActionView::InsertProfile { user, input, version } => seq![
                SqlView::Text(user),
                SqlView::Text(input.address),
                SqlView::Text(input.phone_number),
                SqlView::Integer(version),
            ],
            ActionView::InsertRevision { user, input, version, recorded_at_ms } => seq![
                SqlView::Text(user),
                SqlView::Integer(version),
                SqlView::Text(input.address),
                SqlView::Text(input.phone_number),
                SqlView::Unsigned(recorded_at_ms),
            ],
            ActionView::UpdateProfile { user, input, next, expected } => seq![
                SqlView::Text(input.address),
                SqlView::Text(input.phone_number),
                SqlView::Integer(next),
                SqlView::Text(user),
                SqlView::Integer(expected),
            ],
            ActionView::ReadVersion { user } => seq![SqlView::Text(user)],
            ActionView::ReadProfile { user } => seq![SqlView::Text(user)],
            ActionView::ReadRevisions { user } => seq![SqlView::Text(user)],
            ActionView::Commit => Seq::empty(),
        }
    }
}

impl Action {
    /// The statement that performs the action.
    pub fn sql(&self) -> (r: &'static str)
        ensures
            r@ == self@.sql(),
    {
        match self {
            Action::Begin { immediate } => if *immediate {
                BEGIN_IMMEDIATE
            } else {
                BEGIN
            },
            Action::InsertProfile { .. } => INSERT_PROFILE,
            Action::InsertRevision { .. } => INSERT_REVISION,
            Action::UpdateProfile { .. } => UPDATE_PROFILE,
            Action::ReadVersion { .. } => SELECT_VERSION,
            Action::ReadProfile { .. } => SELECT_PROFILE,
            Action::ReadRevisions { .. } => SELECT_REVISIONS,
            Action::Commit => COMMIT,
        }
    }

    /// The parameters of the statement, in order.
    pub fn params(&self) -> (r: Vec<SqlValue>)
        ensures
            params_view(r@) == self@.params(),
    {
        let mut r: Vec<SqlValue> = Vec::new();
        match self {
            Action::Begin { .. } | Action::Commit => {},
            Action::InsertProfile { user_id, input, version } => {
                r.push(SqlValue::Text(user_id.to_string()));
                r.push(SqlValue::Text(input.address.clone()));
                r.push(SqlValue::Text(input.phone_number.clone()));
                r.push(SqlValue::Integer(*version));
            },
            Action::InsertRevision { user_id, input, version, recorded_at_ms } => {
                r.push(SqlValue::Text(user_id.to_string()));
                r.push(SqlValue::Integer(*version));
                r.push(SqlValue::Text(input.address.clone()));
                r.push(SqlValue::Text(input.phone_number.clone()));
                r.push(SqlValue::Unsigned(*recorded_at_ms));
            },
            Action::UpdateProfile { user_id, input, next, expected } => {
                r.push(SqlValue::Text(input.address.clone()));
                r.push(SqlValue::Text(input.phone_number.clone()));
                r.push(SqlValue::Integer(*next));
                r.push(SqlValue::Text(user_id.to_string()));
                r.push(SqlValue::Integer(*expected));
            },
            Action::ReadVersion { user_id } | Action::ReadProfile { user_id }
            | Action::ReadRevisions { user_id } => {
                r.push(SqlValue::Text(user_id.to_string()));
            },
        }
        assert(params_view(r@) =~= self@.params());
        r
    }
}

/// A row of the current projections.
#[derive(Debug, PartialEq, Eq)]
pub struct ProfileRow {
    /// Postal address.
    pub address: String,
    /// Telephone number.
    pub phone_number: String,
    /// Stored counter.
    pub version: i64,
}

/// What a row of the current projections says.
#[verifier::ext_equal]
pub struct ProfileRowView {
    /// Postal address.
    pub address: Seq<char>,
    /// Telephone number.
    pub phone_number: Seq<char>,
    /// Stored counter.
    pub version: i64,
}

impl View for ProfileRow {
    type V = ProfileRowView;

    open spec fn view(&self) -> ProfileRowView {
        ProfileRowView {
            address: self.address@,
            phone_number: self.phone_number@,
            version: self.version,
        }
    }
}

/// A row of the accepted writes.
#[derive(Debug, PartialEq, Eq)]
pub struct RevisionRow {
    /// Stored counter.
    pub version: i64,
    /// Postal address.
    pub address: String,
    /// Telephone number.
    pub phone_number: String,
    /// When the write was accepted.
    pub recorded_at_ms: u64,
}

/// What a row of the accepted writes says.
#[verifier::ext_equal]
pub struct RevisionRowView {
    /// Stored counter.
    pub version: i64,
    /// Postal address.
    pub address: Seq<char>,
    /// Telephone number.
    pub phone_number: Seq<char>,
    /// When the write was accepted.
    pub recorded_at_ms: u64,
}

impl View for RevisionRow {
    type V = RevisionRowView;

    open spec fn view(&self) -> RevisionRowView {
        RevisionRowView {
            version: self.version,
            address: self.address@,
            phone_number: self.phone_number@,
            recorded_at_ms: self.recorded_at_ms,
        }
    }
}

/// What a list of rows says.
pub open spec fn rows_view(rows: Seq<RevisionRow>) -> Seq<RevisionRowView> {
    Seq::new(rows.len(), |i: int| rows[i]@)
}

/// What the database answered to the last action of a transaction.
#[derive(Debug, PartialEq, Eq)]
pub enum Event {
    /// The transaction was started or made durable.
    Done,
    /// The statement changed this many rows.
    Changed(usize),
    /// The stored version, if there is a profile.
    Version(Option<i64>),
    /// The action failed, for the reason given.
    Failed(String),
}

/// What an answer of the database says.
pub enum EventView {
    /// The transaction was started or made durable.
    Done,
    /// The statement changed this many rows.
    Changed(usize),
    /// The stored version, if there is a profile.
    Version(Option<i64>),
    /// The action failed, for the reason given.
    Failed(Seq<char>),
}

impl View for Event {
    type V = EventView;

    open spec fn view(&self) -> EventView {
        match self {
            Event::Done => EventView::Done,
            Event::Changed(rows) => EventView::Changed(*rows),
            Event::Version(version) => EventView::Version(*version),
            Event::Failed(reason) => EventView::Failed(reason@),
        }
    }
}

/// The reason given where an answer does not belong to the action before it.
pub const OUT_OF_TURN: &'static str = "the answer does not belong to the action";

/// How far an operation has come: the action it waits for an answer to.
#[derive(Debug, Clone, Copy, PartialEq, Eq, Structural)]
pub enum Phase {
    /// The transaction is being started.
    Begin,
    /// The profile is being written.
    Write,
    /// The version that won is being read.
    Inspect,
    /// The revision is being appended.
    Append,
    /// The transaction is being made durable.
    Commit,
    /// The operation is over.
    Over,
}

/// Why an operation on the database failed.
pub enum FaultView {
    /// The version counter cannot be incremented further.
    Exhausted,
    /// The backend failed, for the reason given.
    Backend(Seq<char>),
}

/// What a storage error says.
pub open spec fn fault(error: StoreError) -> FaultView {
    match error {
        StoreError::VersionExhausted => FaultView::Exhausted,
        StoreError::Backend(reason) => FaultView::Backend(reason@),
    }
}

/// The failure that an event out of turn, or a failed action, leads to.
pub open spec fn failure(event: EventView) -> FaultView {
    match event {
        EventView::Failed(reason) => FaultView::Backend(reason),
        _ => FaultView::Backend(OUT_OF_TURN@),
    }
}

/// The error that an event out of turn, or a failed action, leads to.
fn failed(event: Event) -> (r: StoreError)
    ensures
        fault(r) == failure(event@),
{
    match event {
        Event::Failed(reason) => StoreError::Backend(reason),
        _ => StoreError::Backend(OUT_OF_TURN.to_owned()),
    }
}

/// A profile being created.
#[derive(Debug)]
pub struct CreateRun {
    user_id: UserId,
    input: ProfileInput,
    recorded_at_ms: u64,
    phase: Phase,
}

/// What a profile being created looks like.
#[verifier::ext_equal]
pub struct CreateView {
    /// Owner of the profile.
    pub user: Seq<char>,
    /// What the profile says.
    pub input: InputView,
    /// When the write was accepted.
    pub recorded_at_ms: u64,
    /// How far the operation has come.
    pub phase: Phase,
}

/// What comes next in a create.
pub enum CreateStep {
    /// Perform an action and hand back the answer.
    Perform(Action),
    /// The operation is over.
    Finish {
        /// What the operation answers.
        outcome: Result<Option<Arc<Profile>>, StoreError>,
        /// Whether a transaction is open that must be undone.
        roll_back: bool,
    },
}

/// What the next step of a create says.
pub enum CreateStepView {
    /// Perform an action and hand back the answer.
    Perform(ActionView),
    /// The operation is over.
    Finish {
        /// What the operation answers.
        outcome: Result<Option<ProfileView>, FaultView>,
        /// Whether a transaction is open that must be undone.
        roll_back: bool,
    },
}

impl View for CreateStep {
    type V = CreateStepView;

    open spec fn view(&self) -> CreateStepView {
        match self {
            CreateStep::Perform(action) => CreateStepView::Perform(action@),
            CreateStep::Finish { outcome, roll_back } => CreateStepView::Finish {
                outcome: match outcome {
                    Ok(Some(profile)) => Ok(Some(profile@)),
                    Ok(None) => Ok(None),
                    Err(error) => Err(fault(*error)),
                },
                roll_back: *roll_back,
            },
        }
    }
}

/// A create before its first answer. The transaction is being started.
pub open spec fn create_start(user: Seq<char>, input: InputView) -> CreateView {
    CreateView { user, input, recorded_at_ms: 0, phase: Phase::Begin }
}

/// The action that a create waits for an answer to first.
pub open spec fn create_opening() -> ActionView {
    ActionView::Begin { immediate: false }
}

/// Where a create goes on an answer of the database, `now` being the reading of
/// the clock: it inserts the profile unless there is one, appends the first
/// revision, and makes both durable.
pub open spec fn create_next(run: CreateView, event: EventView, now: u64) -> (
    CreateView,
    CreateStepView,
) {
    let over = CreateView { phase: Phase::Over, ..run };
    match (run.phase, event) {
        (Phase::Begin, EventView::Done) => (
            CreateView { phase: Phase::Write, recorded_at_ms: now, ..run },
            CreateStepView::Perform(
                ActionView::InsertProfile {
                    user: run.user,
                    input: run.input,
                    version: INITIAL as i64,
                },
            ),
        ),
        (Phase::Write, EventView::Changed(rows)) => if rows == 0 {
            (over, CreateStepView::Finish { outcome: Ok(None), roll_back: true })
        } else {
            (
                CreateView { phase: Phase::Append, ..run },
                CreateStepView::Perform(
                    ActionView::InsertRevision {
                        user: run.user,
                        input: run.input,
                        version: INITIAL as i64,
                        recorded_at_ms: run.recorded_at_ms,
                    },
                ),
            )
        },
        (Phase::Append, EventView::Changed(_)) => (
            CreateView { phase: Phase::Commit, ..run },
            CreateStepView::Perform(ActionView::Commit),
        ),
        (Phase::Commit, EventView::Done) => (
            over,
            CreateStepView::Finish {
                outcome: Ok(
                    Some(
                        ProfileView {
                            user_id: run.user,
                            address: run.input.address,
                            phone_number: run.input.phone_number,
                            version: INITIAL,
                        },
                    ),
                ),
                roll_back: false,
            },
        ),
        _ => (
            over,
            CreateStepView::Finish {
                outcome: Err(failure(event)),
                roll_back: run.phase != Phase::Begin && run.phase != Phase::Over,
            },
        ),
    }
}

impl View for CreateRun {
    type V = CreateView;

    closed spec fn view(&self) -> CreateView {
        CreateView {
            user: self.user_id@,
            input: self.input@,
            recorded_at_ms: self.recorded_at_ms,
            phase: self.phase,
        }
    }
}

impl CreateRun {
    /// Starts creating a profile, with the action that comes first.
    pub fn start(user_id: &UserId, input: ProfileInput) -> (r: (CreateRun, Action))
        ensures
            r.0@ == create_start(user_id@, input@),
            r.1@ == create_opening(),
    {
        (
            CreateRun { user_id: user_id.clone(), input, recorded_at_ms: 0, phase: Phase::Begin },
            Action::Begin { immediate: false },
        )
    }

    /// Goes on with the answer to the last action, at a reading of the clock.
    pub fn advance(&mut self, event: Event, now: u64) -> (r: CreateStep)
        ensures
            (final(self)@, r@) == create_next(old(self)@, event@, now),
    {
        let phase = self.phase;
        match (phase, event) {
            (Phase::Begin, Event::Done) => {
                self.recorded_at_ms = now;
                self.phase = Phase::Write;
                CreateStep::Perform(
                    Action::InsertProfile {
                        user_id: self.user_id.clone(),
                        input: self.input.clone(),
                        version: INITIAL as i64,
                    },
                )
            },
            (Phase::Write, Event::Changed(rows)) => {
                if rows == 0 {
                    self.phase = Phase::Over;
                    CreateStep::Finish { outcome: Ok(None), roll_back: true }
                } else {
                    self.phase = Phase::Append;
                    CreateStep::Perform(
                        Action::InsertRevision {
                            user_id: self.user_id.clone(),
                            input: self.input.clone(),
                            version: INITIAL as i64,
                            recorded_at_ms: self.recorded_at_ms,
                        },
                    )
                }
            },
            (Phase::Append, Event::Changed(_)) => {
                self.phase = Phase::Commit;
                CreateStep::Perform(Action::Commit)
            },
            (Phase::Commit, Event::Done) => {
                self.phase = Phase::Over;
                let profile = Arc::new(
                    Profile {
                        user_id: self.user_id.clone(),
                        address: self.input.address.clone(),
                        phone_number: self.input.phone_number.clone(),
                        version: Version::initial(),
                    },
                );
                CreateStep::Finish { outcome: Ok(Some(profile)), roll_back: false }
            },
            (_, event) => {
                self.phase = Phase::Over;
                CreateStep::Finish {
                    outcome: Err(failed(event)),
                    roll_back: phase != Phase::Begin && phase != Phase::Over,
                }
            },
        }
    }
}

/// A profile being replaced.
#[derive(Debug)]
pub struct UpdateRun {
    user_id: UserId,
    expected: Version,
    input: ProfileInput,
    phase: Phase,
}

/// What a profile being replaced looks like.
#[verifier::ext_equal]
pub struct UpdateView {
    /// Owner of the profile.
    pub user: Seq<char>,
    /// The version that the writer believes it is replacing.
    pub expected: u64,
    /// What the profile is to say.
    pub input: InputView,
    /// How far the operation has come.
    pub phase: Phase,
}

/// What comes next in an update.
pub enum UpdateStep {
    /// Perform an action and hand back the answer.
    Perform(Action),
    /// The operation is over.
    Finish {
        /// What the operation answers.
        outcome: Result<Update, StoreError>,
        /// Whether a transaction is open that must be undone.
        roll_back: bool,
    },
}

/// What an update answers.
pub enum OutcomeView {
    /// The profile at its new version.
    Applied(ProfileView),
    /// The version actually stored.
    Stale(u64),
    /// There is no profile.
    Missing,
}

/// What the next step of an update says.
pub enum UpdateStepView {
    /// Perform an action and hand back the answer.
    Perform(ActionView),
    /// The operation is over.
    Finish {
        /// What the operation answers.
        outcome: Result<OutcomeView, FaultView>,
        /// Whether a transaction is open that must be undone.
        roll_back: bool,
    },
}

impl View for UpdateStep {
    type V = UpdateStepView;

    open spec fn view(&self) -> UpdateStepView {
        match self {
            UpdateStep::Perform(action) => UpdateStepView::Perform(action@),
            UpdateStep::Finish { outcome, roll_back } => UpdateStepView::Finish {
                outcome: match outcome {
                    Ok(Update::Applied(profile)) => Ok(OutcomeView::Applied(profile@)),
                    Ok(Update::Stale { current_version }) => Ok(
                        OutcomeView::Stale(current_version.0),
                    ),
                    Ok(Update::Missing) => Ok(OutcomeView::Missing),
                    Err(error) => Err(fault(*error)),
                },
                roll_back: *roll_back,
            },
        }
    }
}

/// An update before its first answer. The transaction is being started.
pub open spec fn update_start(user: Seq<char>, expected: u64, input: InputView) -> UpdateView {
    UpdateView { user, expected, input, phase: Phase::Begin }
}

/// The action that an update waits for an answer to first.
pub open spec fn update_opening() -> ActionView {
    ActionView::Begin { immediate: true }
}

/// Where an update goes on an answer of the database, `now` being the reading
/// of the clock: it replaces the profile if that is still at the expected
/// version, appends the revision, and makes both durable; where no row was
/// replaced, or none can be because the next version is one that the database
/// cannot hold, it reads which version is stored.
pub open spec fn update_next(run: UpdateView, event: EventView, now: u64) -> (
    UpdateView,
    UpdateStepView,
) {
    let over = UpdateView { phase: Phase::Over, ..run };
    match (run.phase, event) {
        (Phase::Begin, EventView::Done) => if run.expected < i64::MAX {
            (
                UpdateView { phase: Phase::Write, ..run },
                UpdateStepView::Perform(
                    ActionView::UpdateProfile {
                        user: run.user,
                        input: run.input,
                        next: (run.expected + 1) as i64,
                        expected: run.expected as i64,
                    },
                ),
            )
        } else {
            (
                UpdateView { phase: Phase::Inspect, ..run },
                UpdateStepView::Perform(ActionView::ReadVersion { user: run.user }),
            )
        },
        (Phase::Write, EventView::Changed(rows)) => if rows == 0 {
            (
                UpdateView { phase: Phase::Inspect, ..run },
                UpdateStepView::Perform(ActionView::ReadVersion { user: run.user }),
            )
        } else {
            (
                UpdateView { phase: Phase::Append, ..run },
                UpdateStepView::Perform(
                    ActionView::InsertRevision {
                        user: run.user,
                        input: run.input,
                        version: (run.expected + 1) as i64,
                        recorded_at_ms: now,
                    },
                ),
            )
        },
        (Phase::Inspect, EventView::Version(found)) => (
            over,
            UpdateStepView::Finish {
                outcome: match found {
                    Some(raw) => if run.expected >= i64::MAX && counter_of(raw) == run.expected {
                        Err(FaultView::Exhausted)
                    } else {
                        Ok(OutcomeView::Stale(counter_of(raw)))
                    },
                    None => Ok(OutcomeView::Missing),
                },
                roll_back: true,
            },
        ),
        (Phase::Append, EventView::Changed(_)) => (
            UpdateView { phase: Phase::Commit, ..run },
            UpdateStepView::Perform(ActionView::Commit),
        ),
        (Phase::Commit, EventView::Done) => (
            over,
            UpdateStepView::Finish {
                outcome: Ok(
                    OutcomeView::Applied(
                        ProfileView {
                            user_id: run.user,
                            address: run.input.address,
                            phone_number: run.input.phone_number,
                            version: (run.expected + 1) as u64,
                        },
                    ),
                ),
                roll_back: false,
            },
        ),
        _ => (
            over,
            UpdateStepView::Finish {
                outcome: Err(failure(event)),
                roll_back: run.phase != Phase::Begin && run.phase != Phase::Over,
            },
        ),
    }
}

impl View for UpdateRun {
    type V = UpdateView;

    closed spec fn view(&self) -> UpdateView {
        UpdateView {
            user: self.user_id@,
            expected: self.expected.0,
            input: self.input@,
            phase: self.phase,
        }
    }
}

impl UpdateRun {
    /// Where it is written, the next version is one that the database can hold.
    #[verifier::type_invariant]
    spec fn counts_on(&self) -> bool {
        self.phase == Phase::Begin || self.phase == Phase::Inspect || self.phase == Phase::Over
            || self.expected.0 < i64::MAX
    }

    /// Starts replacing a profile, with the action that comes first.
    pub fn start(user_id: &UserId, expected_version: Version, input: ProfileInput) -> (r: (
        UpdateRun,
        Action,
    ))
        ensures
            r.0@ == update_start(user_id@, expected_version.0, input@),
            r.1@ == update_opening(),
    {
        (
            UpdateRun {
                user_id: user_id.clone(),
                expected: expected_version,
                input,
                phase: Phase::Begin,
            },
            Action::Begin { immediate: true },
        )
    }

    /// Goes on with the answer to the last action, at a reading of the clock.
    pub fn advance(&mut self, event: Event, now: u64) -> (r: UpdateStep)
        ensures
            (final(self)@, r@) == update_next(old(self)@, event@, now),
    {
        proof {
            use_type_invariant(&*self);
        }
        let phase = self.phase;
        match (phase, event) {
            (Phase::Begin, Event::Done) => {
                let next = match self.expected.checked_next() {
                    Some(next) => next,
                    None => {
                        self.phase = Phase::Inspect;
                        return UpdateStep::Perform(
                            Action::ReadVersion { user_id: self.user_id.clone() },
                        );
                    },
                };
                match (to_sql(next), to_sql(self.expected)) {
                    (Ok(next), Ok(expected)) => {
                        self.phase = Phase::Write;
                        UpdateStep::Perform(
                            Action::UpdateProfile {
                                user_id: self.user_id.clone(),
                                input: self.input.clone(),
                                next,
                                expected,
                            },
                        )
                    },
                    _ => {
                        self.phase = Phase::Inspect;
                        UpdateStep::Perform(Action::ReadVersion { user_id: self.user_id.clone() })
                    },
                }
            },
            (Phase::Write, Event::Changed(rows)) => {
                if rows == 0 {
                    self.phase = Phase::Inspect;
                    UpdateStep::Perform(Action::ReadVersion { user_id: self.user_id.clone() })
                } else {
                    self.phase = Phase::Append;
                    UpdateStep::Perform(
                        Action::InsertRevision {
                            user_id: self.user_id.clone(),
                            input: self.input.clone(),
                            version: (self.expected.get() + 1) as i64,
                            recorded_at_ms: now,
                        },
                    )
                }
            },
            (Phase::Inspect, Event::Version(found)) => {
                self.phase = Phase::Over;
                let outcome = match found {
                    Some(raw) => {
                        let current_version = from_sql(raw);
                        if current_version == self.expected && self.expected.get()
                            >= i64::MAX as u64 {
                            Err(StoreError::VersionExhausted)
                        } else {
                            Ok(Update::Stale { current_version })
                        }
                    },
                    None => Ok(Update::Missing),
                };
                UpdateStep::Finish { outcome, roll_back: true }
            },
            (Phase::Append, Event::Changed(_)) => {
                self.phase = Phase::Commit;
                UpdateStep::Perform(Action::Commit)
            },
            (Phase::Commit, Event::Done) => {
                self.phase = Phase::Over;
                let profile = Arc::new(
                    Profile {
                        user_id: self.user_id.clone(),
                        address: self.input.address.clone(),
                        phone_number: self.input.phone_number.clone(),
                        version: Version::from_counter(self.expected.get() + 1),
                    },
                );
                UpdateStep::Finish { outcome: Ok(Update::Applied(profile)), roll_back: false }
            },
            (_, event) => {
                self.phase = Phase::Over;
                UpdateStep::Finish {
                    outcome: Err(failed(event)),
                    roll_back: phase != Phase::Begin && phase != Phase::Over,
                }
            },
        }
    }
}

/// The profile that a row holds.
pub open spec fn row_profile(user: Seq<char>, row: ProfileRowView) -> ProfileView {
    ProfileView {
        user_id: user,
        address: row.address,
        phone_number: row.phone_number,
        version: counter_of(row.version),
    }
}

/// The action that reads the current projection.
pub fn read_profile(user_id: &UserId) -> (r: Action)
    ensures
        r@ == (ActionView::ReadProfile { user: user_id@ }),
{
    Action::ReadProfile { user_id: user_id.clone() }
}

/// The projection that the row read for it holds.
pub fn found_profile(user_id: &UserId, row: Option<ProfileRow>) -> (r: Option<Arc<Profile>>)
    ensures
        match row {
            Some(row) => r is Some && r->0@ == row_profile(user_id@, row@),
            None => r is None,
        },
{
    match row {
        Some(row) => Some(
            Arc::new(
                Profile {
                    user_id: user_id.clone(),
                    address: row.address,
                    phone_number: row.phone_number,
                    version: from_sql(row.version),
                },
            ),
        ),
        None => None,
    }
}

/// The accepted write that a row holds.
pub open spec fn row_revision(row: RevisionRowView) -> RevisionView {
    RevisionView {
        version: counter_of(row.version),
        address: row.address,
        phone_number: row.phone_number,
        recorded_at_ms: row.recorded_at_ms,
    }
}

/// The action that reads every accepted write.
pub fn read_revisions(user_id: &UserId) -> (r: Action)
    ensures
        r@ == (ActionView::ReadRevisions { user: user_id@ }),
{
    Action::ReadRevisions { user_id: user_id.clone() }
}

/// The accepted writes that the rows read for them hold.
pub fn found_revisions(rows: &Vec<RevisionRow>) -> (r: Vec<Revision>)
    ensures
        crate::profile::store::history_view(r@) == rows_view(rows@).map_values(
            |row: RevisionRowView| row_revision(row),
        ),
{
    let mut r: Vec<Revision> = Vec::new();
    let mut i: usize = 0;
    while i < rows.len()
        invariant
            i <= rows.len(),
            r@.len() == i,
            forall|j: int| 0 <= j < i ==> (#[trigger] r@[j])@ == row_revision(rows@[j]@),
        decreases rows.len() - i,
    {
        let row = &rows[i];
        r.push(
            Revision {
                version: from_sql(row.version),
                address: row.address.clone(),
                phone_number: row.phone_number.clone(),
                recorded_at_ms: row.recorded_at_ms,
            },
        );
        i = i + 1;
    }
    assert(crate::profile::store::history_view(r@) =~= rows_view(rows@).map_values(
        |row: RevisionRowView| row_revision(row),
    ));
    r
}

/// A counter is stored as the number it is, exactly where that is below 2^63, and
/// reads back as it was stored; a stored number below zero reads as zero.
pub proof fn law_stored_counters_read_back(counter: u64, raw: i64)
    ensures
        sql_counter(counter) is Some <==> counter <= 9_223_372_036_854_775_807,
        sql_counter(counter) matches Some(stored) ==> stored as int == counter as int
            && counter_of(stored) == counter,
        raw >= 0 ==> counter_of(raw) as int == raw as int && sql_counter(counter_of(raw)) == Some(
            raw,
        ),
        raw < 0 ==> counter_of(raw) == 0,
{
}

/// A row says what its columns hold, in the name of the user it was read for.
pub proof fn law_rows_say_what_they_hold(
    user: Seq<char>,
    row: ProfileRowView,
    write: RevisionRowView,
)
    ensures
        row_profile(user, row).user_id == user,
        row_profile(user, row).address == row.address,
        row_profile(user, row).phone_number == row.phone_number,
        row.version >= 0 ==> row_profile(user, row).version == row.version,
        row_revision(write).address == write.address,
        row_revision(write).phone_number == write.phone_number,
        row_revision(write).recorded_at_ms == write.recorded_at_ms,
        write.version >= 0 ==> row_revision(write).version == write.version,
{
}

/// Each statement is handed its parameters in the order in which it numbers them.
pub proof fn law_parameters_stand_in_order(
    user: Seq<char>,
    input: InputView,
    version: i64,
    expected: i64,
    recorded_at_ms: u64,
)
    ensures
        (ActionView::InsertProfile { user, input, version }).params() == seq![
            SqlView::Text(user),
            SqlView::Text(input.address),
            SqlView::Text(input.phone_number),
            SqlView::Integer(version),
        ],
        (ActionView::InsertRevision { user, input, version, recorded_at_ms }).params() == seq![
            SqlView::Text(user),
            SqlView::Integer(version),
            SqlView::Text(input.address),
            SqlView::Text(input.phone_number),
            SqlView::Unsigned(recorded_at_ms),
        ],
        (ActionView::UpdateProfile { user, input, next: version, expected }).params() == seq![
            SqlView::Text(input.address),
            SqlView::Text(input.phone_number),
            SqlView::Integer(version),
            SqlView::Text(user),
            SqlView::Integer(expected),
        ],
        (ActionView::ReadVersion { user }).params() == seq![SqlView::Text(user)],
        (ActionView::ReadProfile { user }).params() == seq![SqlView::Text(user)],
        (ActionView::ReadRevisions { user }).params() == seq![SqlView::Text(user)],
        ActionView::Commit.params().len() == 0,
        forall|immediate: bool| (#[trigger] (ActionView::Begin { immediate }).params()).len() == 0,
{
}

/// Each action is performed by its own statement.
pub proof fn law_actions_have_their_statements(action: ActionView)
    ensures
        action.sql() == match action {
            ActionView::Begin { immediate: false } => "BEGIN DEFERRED"@,
            ActionView::Begin { immediate: true } => "BEGIN IMMEDIATE"@,
            ActionView::Commit => "COMMIT"@,
            ActionView::InsertProfile { .. } => INSERT_PROFILE@,
            ActionView::InsertRevision { .. } => INSERT_REVISION@,
            ActionView::UpdateProfile { .. } => UPDATE_PROFILE@,
            ActionView::ReadVersion { .. } => SELECT_VERSION@,
            ActionView::ReadProfile { .. } => SELECT_PROFILE@,
            ActionView::ReadRevisions { .. } => SELECT_REVISIONS@,
        },
{
}

/// How many answers a run waits for at most, from each phase on.
pub open spec fn answers_left(phase: Phase) -> nat {
    match phase {
        Phase::Begin => 4,
        Phase::Write => 3,
        Phase::Append => 2,
        Phase::Inspect => 1,
        Phase::Commit => 1,
        Phase::Over => 0,
    }
}

/// A create comes to its end, and tidies up behind itself: every answer brings it
/// nearer, it is for the same profile throughout, it is done once it is durable,
/// and where it ends otherwise with a transaction open, that is undone. A failure
/// ends it at once, with the reason that was given.
pub proof fn law_creates_come_to_an_end(run: CreateView, event: EventView, now: u64)
    ensures
        ({
            let (next, step) = create_next(run, event, now);
            &&& next.user == run.user && next.input == run.input
            &&& run.phase != Phase::Begin ==> next.recorded_at_ms == run.recorded_at_ms
            &&& match step {
                CreateStepView::Perform(_) => answers_left(next.phase) < answers_left(run.phase),
                CreateStepView::Finish { outcome, roll_back } => {
                    &&& next.phase == Phase::Over
                    &&& roll_back <==> run.phase != Phase::Begin && run.phase != Phase::Over && !(
                    run.phase == Phase::Commit && event is Done)
                    &&& (outcome matches Ok(Some(_)) <==> run.phase == Phase::Commit && event is Done)
                    &&& event matches EventView::Failed(reason) ==> outcome == Err::<
                        Option<ProfileView>,
                        _,
                    >(FaultView::Backend(reason))
                },
            }
            &&& event is Failed ==> step is Finish
        }),
{
}

/// An update comes to its end, and tidies up behind itself, as a create does.
pub proof fn law_updates_come_to_an_end(run: UpdateView, event: EventView, now: u64)
    ensures
        ({
            let (next, step) = update_next(run, event, now);
            &&& next.user == run.user && next.input == run.input && next.expected == run.expected
            &&& match step {
                UpdateStepView::Perform(_) => answers_left(next.phase) < answers_left(run.phase),
                UpdateStepView::Finish { outcome, roll_back } => {
                    &&& next.phase == Phase::Over
                    &&& roll_back <==> run.phase != Phase::Begin && run.phase != Phase::Over && !(
                    run.phase == Phase::Commit && event is Done)
                    &&& (outcome matches Ok(OutcomeView::Applied(_)) <==> run.phase == Phase::Commit
                        && event is Done)
                    &&& event matches EventView::Failed(reason) ==> outcome == Err::<
                        OutcomeView,
                        _,
                    >(FaultView::Backend(reason))
                },
            }
            &&& event is Failed ==> step is Finish
        }),
{
}

/// An update takes the write lock before it reads anything, and both kinds of run
/// start out with what they were given.
pub proof fn law_runs_start_with_what_they_are_given(
    user: Seq<char>,
    expected: u64,
    input: InputView,
)
    ensures
        create_start(user, input).user == user,
        create_start(user, input).input == input,
        create_start(user, input).phase == Phase::Begin,
        create_opening() == (ActionView::Begin { immediate: false }),
        update_start(user, expected, input).user == user,
        update_start(user, expected, input).expected == expected,
        update_start(user, expected, input).input == input,
        update_start(user, expected, input).phase == Phase::Begin,
        update_opening() == (ActionView::Begin { immediate: true }),
{
}

/// What goes to the database and comes from it is seen whole.
pub proof fn law_rows_and_parameters_are_seen_whole(
    params: Seq<SqlValue>,
    rows: Seq<RevisionRow>,
    row: ProfileRow,
    event: Event,
    error: StoreError,
    at: int,
)
    ensures
        params_view(params).len() == params.len(),
        0 <= at < params.len() ==> params_view(params)[at] == match params[at] {
            SqlValue::Text(text) => SqlView::Text(text@),
            SqlValue::Integer(value) => SqlView::Integer(value),
            SqlValue::Unsigned(value) => SqlView::Unsigned(value),
        },
        rows_view(rows).len() == rows.len(),
        0 <= at < rows.len() ==> {
            &&& rows_view(rows)[at].version == rows[at].version
            &&& rows_view(rows)[at].address == rows[at].address@
            &&& rows_view(rows)[at].phone_number == rows[at].phone_number@
            &&& rows_view(rows)[at].recorded_at_ms == rows[at].recorded_at_ms
        },
        row@.address == row.address@,
        row@.phone_number == row.phone_number@,
        row@.version == row.version,
        event matches Event::Changed(count) ==> event@ == EventView::Changed(count),
        event matches Event::Version(found) ==> event@ == EventView::Version(found),
        event matches Event::Failed(reason) ==> event@ == EventView::Failed(reason@),
        event is Done ==> event@ is Done,
        error is VersionExhausted ==> fault(error) is Exhausted,
        error matches StoreError::Backend(reason) ==> fault(error) == FaultView::Backend(reason@),
{
}

/// An answer that does not belong to the action before it ends a run, as one that
/// failed does, under a reason of its own.
pub proof fn law_answers_out_of_turn_are_failures(event: EventView)
    ensures
        event matches EventView::Failed(reason) ==> failure(event) == FaultView::Backend(reason),
        !(event is Failed) ==> failure(event) == FaultView::Backend(OUT_OF_TURN@),
{
}

} // verus!
