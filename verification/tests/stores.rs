//! One suite for every profile store: the in-memory one, and SQLite driven step
//! by step with a real database.

use knova::common::dto::{Profile, ProfileInput};
use knova::common::{UserId, Version};
use knova::profile::store::memory::{default_shards, select_shard, shard_count, shard_of};
use knova::profile::store::sqlite::{
    found_profile, found_revisions, from_sql, read_profile, read_revisions, to_sql, Action,
    CreateRun, CreateStep, Event, Phase, ProfileRow, RevisionRow, SqlValue, UpdateRun, UpdateStep,
    ROLLBACK, SCHEMA,
};
use knova::profile::{InMemoryProfiles, ProfileRepository, Revision, StoreError, Update};
use rusqlite::types::Value;
use rusqlite::{params_from_iter, Connection, OptionalExtension};
use std::sync::Arc;

fn input(marker: &str) -> ProfileInput {
    ProfileInput {
        address: format!("address-{marker}"),
        phone_number: "5550100".to_owned(),
    }
}

fn user() -> UserId {
    UserId::from("conformance-user")
}

fn second_version() -> Version {
    Version::initial().checked_next().expect("no overflow")
}

type Created = Result<Option<Arc<Profile>>, StoreError>;

/// What the suite asks of a store.
trait Repository {
    fn create(&mut self, user_id: &UserId, input: ProfileInput) -> Created;
    fn get(&self, user_id: &UserId) -> Created;
    fn update(
        &mut self,
        user_id: &UserId,
        expected: Version,
        input: ProfileInput,
    ) -> Result<Update, StoreError>;
    fn history(&self, user_id: &UserId) -> Result<Vec<Revision>, StoreError>;
}

impl Repository for InMemoryProfiles {
    fn create(&mut self, user_id: &UserId, input: ProfileInput) -> Created {
        ProfileRepository::create(self, user_id, input)
    }

    fn get(&self, user_id: &UserId) -> Created {
        ProfileRepository::get(self, user_id)
    }

    fn update(
        &mut self,
        user_id: &UserId,
        expected: Version,
        input: ProfileInput,
    ) -> Result<Update, StoreError> {
        ProfileRepository::update(self, user_id, expected, input)
    }

    fn history(&self, user_id: &UserId) -> Result<Vec<Revision>, StoreError> {
        ProfileRepository::history(self, user_id)
    }
}

/// A database whose statements are decided by the library.
struct Database {
    connection: Connection,
}

impl Database {
    fn in_memory() -> Self {
        let connection = Connection::open_in_memory().expect("in-memory database opens");
        connection.execute_batch(SCHEMA).expect("schema applies");
        Database { connection }
    }

    fn values(action: &Action) -> Vec<Value> {
        action
            .params()
            .into_iter()
            .map(|param| match param {
                SqlValue::Text(text) => Value::Text(text),
                SqlValue::Integer(value) => Value::Integer(value),
                SqlValue::Unsigned(value) => {
                    Value::Integer(i64::try_from(value).expect("timestamps fit"))
                }
            })
            .collect()
    }

    fn perform(&self, action: &Action) -> Event {
        let values = Self::values(action);
        let answer = match action {
            Action::Begin { .. } | Action::Commit => self
                .connection
                .execute(action.sql(), params_from_iter(values))
                .map(|_| Event::Done),
            Action::ReadVersion { .. } => self
                .connection
                .query_row(action.sql(), params_from_iter(values), |row| row.get(0))
                .optional()
                .map(Event::Version),
            _ => self
                .connection
                .execute(action.sql(), params_from_iter(values))
                .map(Event::Changed),
        };
        answer.unwrap_or_else(|error| Event::Failed(error.to_string()))
    }

    fn close(&self, roll_back: bool) {
        if roll_back {
            self.connection
                .execute(ROLLBACK, [])
                .expect("a transaction is open");
        }
        assert!(self.connection.is_autocommit(), "no transaction is left open");
    }
}

impl Repository for Database {
    fn create(&mut self, user_id: &UserId, input: ProfileInput) -> Created {
        let (mut run, mut action) = CreateRun::start(user_id, input);
        loop {
            let event = self.perform(&action);
            match run.advance(event, 7) {
                CreateStep::Perform(next) => action = next,
                CreateStep::Finish { outcome, roll_back } => {
                    self.close(roll_back);
                    return outcome;
                }
            }
        }
    }

    fn get(&self, user_id: &UserId) -> Created {
        let action = read_profile(user_id);
        let row = self
            .connection
            .query_row(action.sql(), params_from_iter(Self::values(&action)), |row| {
                Ok(ProfileRow {
                    address: row.get(0)?,
                    phone_number: row.get(1)?,
                    version: row.get(2)?,
                })
            })
            .optional()
            .expect("healthy");
        Ok(found_profile(user_id, row))
    }

    fn update(
        &mut self,
        user_id: &UserId,
        expected: Version,
        input: ProfileInput,
    ) -> Result<Update, StoreError> {
        let (mut run, mut action) = UpdateRun::start(user_id, expected, input);
        loop {
            let event = self.perform(&action);
            match run.advance(event, 7) {
                UpdateStep::Perform(next) => action = next,
                UpdateStep::Finish { outcome, roll_back } => {
                    self.close(roll_back);
                    return outcome;
                }
            }
        }
    }

    fn history(&self, user_id: &UserId) -> Result<Vec<Revision>, StoreError> {
        let action = read_revisions(user_id);
        let mut statement = self.connection.prepare(action.sql()).expect("healthy");
        let rows = statement
            .query_map(params_from_iter(Self::values(&action)), |row| {
                let recorded: i64 = row.get(3)?;
                Ok(RevisionRow {
                    version: row.get(0)?,
                    address: row.get(1)?,
                    phone_number: row.get(2)?,
                    recorded_at_ms: u64::try_from(recorded).expect("timestamps are positive"),
                })
            })
            .expect("healthy")
            .collect::<Result<Vec<_>, _>>()
            .expect("healthy");
        Ok(found_revisions(&rows))
    }
}

fn both(check: fn(&mut dyn Repository)) {
    check(&mut InMemoryProfiles::new());
    check(&mut Database::in_memory());
}

fn stored(repo: &dyn Repository) -> Arc<Profile> {
    repo.get(&user()).expect("healthy").expect("exists")
}

#[test]
fn create_then_read_round_trips() {
    both(|repo| {
        let created = repo
            .create(&user(), input("first"))
            .expect("backend is healthy")
            .expect("profile did not already exist");
        assert_eq!(created.version, Version::initial());
        assert_eq!(stored(repo), created);
    });
}

#[test]
fn create_is_refused_twice() {
    both(|repo| {
        repo.create(&user(), input("first")).expect("healthy");
        let second = repo.create(&user(), input("second")).expect("healthy");
        assert!(second.is_none(), "a second create must not overwrite");
        assert_eq!(stored(repo).address, "address-first");
    });
}

#[test]
fn update_at_the_current_version_is_applied() {
    both(|repo| {
        repo.create(&user(), input("first")).expect("healthy");
        let outcome = repo
            .update(&user(), Version::initial(), input("second"))
            .expect("healthy");
        let Update::Applied(profile) = outcome else {
            panic!("expected the update to be applied, got {outcome:?}");
        };
        assert_eq!(profile.address, "address-second");
        assert_eq!(profile.version, second_version());
        assert_eq!(stored(repo), profile);
    });
}

#[test]
fn update_at_a_stale_version_is_refused() {
    both(|repo| {
        repo.create(&user(), input("first")).expect("healthy");
        repo.update(&user(), Version::initial(), input("second"))
            .expect("healthy");

        // Replay the version the first writer already consumed.
        let outcome = repo
            .update(&user(), Version::initial(), input("clobber"))
            .expect("healthy");
        assert_eq!(
            outcome,
            Update::Stale {
                current_version: second_version()
            },
            "a stale write must be refused and must report the winning version"
        );
        assert_eq!(
            stored(repo).address,
            "address-second",
            "the stale write must not have been applied"
        );
    });
}

#[test]
fn update_of_an_absent_profile_reports_missing() {
    both(|repo| {
        let outcome = repo
            .update(&user(), Version::initial(), input("nothing"))
            .expect("healthy");
        assert_eq!(outcome, Update::Missing);
    });
}

#[test]
fn history_records_every_accepted_write() {
    both(|repo| {
        repo.create(&user(), input("first")).expect("healthy");
        let mut version = Version::initial();
        for marker in ["second", "third"] {
            let outcome = repo.update(&user(), version, input(marker)).expect("healthy");
            let Update::Applied(profile) = outcome else {
                panic!("expected {marker} to apply");
            };
            version = profile.version;
        }

        // A rejected write must leave no trace in the audit log.
        repo.update(&user(), Version::initial(), input("rejected"))
            .expect("healthy");

        let history = repo.history(&user()).expect("healthy");
        let addresses: Vec<_> = history.iter().map(|r| r.address.as_str()).collect();
        assert_eq!(
            addresses,
            ["address-first", "address-second", "address-third"],
            "history must hold every accepted write, in order, and nothing else"
        );
        assert!(
            history.windows(2).all(|w| w[0].version < w[1].version),
            "revisions must be strictly ordered by version"
        );
        let counters: Vec<u64> = history.iter().map(|r| r.version.get()).collect();
        assert_eq!(counters, [1, 2, 3]);
    });
}

#[test]
fn reads_share_one_projection() {
    let mut repo = InMemoryProfiles::new();
    Repository::create(&mut repo, &user(), input("first")).expect("healthy");
    let first = stored(&repo);
    let second = stored(&repo);
    assert!(
        Arc::ptr_eq(&first, &second),
        "in-memory reads must hand out the shared projection, not a clone"
    );
    assert!(Arc::ptr_eq(&first, &repo.read(&user()).expect("exists")));
}

#[test]
fn a_write_publishes_a_new_projection() {
    both(|repo| {
        repo.create(&user(), input("first")).expect("healthy");
        let before = stored(repo);
        repo.update(&user(), Version::initial(), input("second"))
            .expect("healthy");
        let after = stored(repo);
        assert!(
            !Arc::ptr_eq(&before, &after),
            "a write must publish a new projection, not mutate the one readers hold"
        );
        assert_eq!(before.address, "address-first");
        assert_eq!(after.address, "address-second");
    });
}

#[test]
fn history_of_an_absent_profile_is_empty() {
    both(|repo| {
        assert!(repo.history(&user()).expect("healthy").is_empty());
        assert!(repo.get(&user()).expect("healthy").is_none());
    });
}

#[test]
fn interleaved_increments_never_lose_an_update() {
    const WRITERS: usize = 32;
    both(|repo| {
        repo.create(&user(), input("0")).expect("healthy");

        // Every writer that has not won yet reads before any of them writes, so
        // each round has one winner and every loser tries again.
        let mut waiting = WRITERS;
        while waiting > 0 {
            let read = stored(repo);
            let counter: usize = read
                .address
                .trim_start_matches("address-")
                .parse()
                .expect("address holds a counter");
            let applied = (0..waiting)
                .filter(|_| {
                    let next = input(&(counter + 1).to_string());
                    matches!(
                        repo.update(&user(), read.version, next).expect("healthy"),
                        Update::Applied(_)
                    )
                })
                .count();
            assert_eq!(applied, 1, "exactly one writer wins a version");
            waiting -= 1;
        }

        assert_eq!(
            stored(repo).address,
            format!("address-{WRITERS}"),
            "every increment must survive"
        );
        assert_eq!(
            repo.history(&user()).expect("healthy").len(),
            WRITERS + 1,
            "one revision per accepted write, plus the create"
        );
    });
}

#[test]
fn users_do_not_see_each_other() {
    both(|repo| {
        let other = UserId::from("another");
        repo.create(&user(), input("mine")).expect("healthy");
        assert!(repo.get(&other).expect("healthy").is_none());
        repo.create(&other, input("theirs")).expect("healthy");
        repo.update(&other, Version::initial(), input("changed"))
            .expect("healthy");
        assert_eq!(stored(repo).address, "address-mine");
        assert_eq!(repo.history(&user()).expect("healthy").len(), 1);
        assert_eq!(repo.history(&other).expect("healthy").len(), 2);
    });
}

#[test]
fn writes_are_recorded_at_their_time() {
    let mut repo = InMemoryProfiles::default();
    assert!(repo.create_at(&user(), input("first"), 10).is_some());
    assert!(matches!(
        repo.update_at(&user(), Version::initial(), input("second"), 20),
        Ok(Update::Applied(_))
    ));
    let times: Vec<u64> = Repository::history(&repo, &user())
        .expect("healthy")
        .iter()
        .map(|r| r.recorded_at_ms)
        .collect();
    assert_eq!(times, [10, 20]);
}

#[test]
fn a_quoted_version_beyond_the_stored_one_is_stale() {
    both(|repo| {
        repo.create(&user(), input("first")).expect("healthy");
        for counter in [u64::MAX, 0x8000_0000_0000_0000, 0x7fff_ffff_ffff_ffff, 2, 0] {
            assert_eq!(
                repo.update(&user(), Version::from_counter(counter), input("never"))
                    .expect("healthy"),
                Update::Stale {
                    current_version: Version::initial()
                }
            );
            assert_eq!(
                repo.update(
                    &UserId::from("nobody"),
                    Version::from_counter(counter),
                    input("never")
                )
                .expect("healthy"),
                Update::Missing
            );
        }
        assert_eq!(stored(repo).version, Version::initial());
        assert_eq!(repo.history(&user()).expect("healthy").len(), 1);
    });
}

#[test]
fn an_exhausted_counter_is_an_error_in_sqlite() {
    let last = Version::from_counter(0x7fff_ffff_ffff_ffff);
    let mut database = Database::in_memory();
    database.create(&user(), input("first")).expect("healthy");
    database
        .connection
        .execute("UPDATE profiles SET version = 9223372036854775807", [])
        .expect("changed by hand");
    assert!(matches!(
        database.update(&user(), last, input("never")),
        Err(StoreError::VersionExhausted)
    ));
    for counter in [1, u64::MAX] {
        assert_eq!(
            database
                .update(&user(), Version::from_counter(counter), input("never"))
                .expect("healthy"),
            Update::Stale {
                current_version: last
            }
        );
    }
    assert_eq!(stored(&database).version, last);
    assert_eq!(StoreError::VersionExhausted.to_string(), "version counter exhausted");
    assert_eq!(
        StoreError::Backend("why".to_owned()).to_string(),
        "storage backend failed"
    );
}

#[test]
fn counters_convert_to_sqlite_and_back() {
    assert_eq!(to_sql(Version::from_counter(5)).expect("fits"), 5);
    assert_eq!(
        to_sql(Version::from_counter(i64::MAX as u64)).expect("fits"),
        i64::MAX
    );
    assert!(matches!(
        to_sql(Version::from_counter(i64::MAX as u64 + 1)),
        Err(StoreError::VersionExhausted)
    ));
    assert_eq!(from_sql(5), Version::from_counter(5));
    assert_eq!(from_sql(-1), Version::from_counter(0));
}

#[test]
fn a_failed_statement_undoes_the_transaction() {
    let mut database = Database::in_memory();
    database
        .connection
        .execute("DROP TABLE profile_revisions", [])
        .expect("drops");
    assert!(matches!(
        database.create(&user(), input("first")),
        Err(StoreError::Backend(_))
    ));
    assert!(database.get(&user()).expect("healthy").is_none());
    assert_eq!(
        database
            .update(&user(), Version::initial(), input("second"))
            .expect("healthy"),
        Update::Missing
    );
}

#[test]
fn an_answer_out_of_turn_ends_the_operation() {
    let (mut run, action) = UpdateRun::start(&user(), Version::initial(), input("x"));
    assert_eq!(action.sql(), "BEGIN IMMEDIATE");
    let UpdateStep::Finish { outcome, roll_back } = run.advance(Event::Changed(1), 0) else {
        panic!("nothing was changed yet");
    };
    assert!(matches!(outcome, Err(StoreError::Backend(_))));
    assert!(!roll_back, "no transaction was started");
    let (mut run, action) = CreateRun::start(&user(), input("x"));
    assert_eq!(action.sql(), "BEGIN DEFERRED");
    assert!(matches!(run.advance(Event::Done, 0), CreateStep::Perform(_)));
    let CreateStep::Finish { outcome, roll_back } = run.advance(Event::Failed("why".to_owned()), 0)
    else {
        panic!("the insert failed");
    };
    assert!(matches!(outcome, Err(StoreError::Backend(reason)) if reason == "why"));
    assert!(roll_back);
    assert_ne!(Phase::Begin, Phase::Over);
}

#[test]
fn shard_counts_are_powers_of_two() {
    for (wanted, count) in [(0, 1), (1, 1), (2, 2), (3, 4), (32, 32), (33, 64)] {
        assert_eq!(shard_count(wanted), count);
        let shards = InMemoryProfiles::with_shards(wanted);
        assert_eq!(shards.len(), count);
        let id = user();
        let owner = shard_of(&id, count - 1);
        assert!(owner < count);
        assert_eq!(owner, shard_of(&id, count - 1), "a user stays at its shard");
    }
    assert_eq!(default_shards(Some(6)), 24);
    assert_eq!(default_shards(None), 32);
    assert_eq!(select_shard(0xABCD_EF01_2345_6789, 0xF), 0x1);
    let owners: Vec<usize> = (0..64)
        .map(|i| shard_of(&UserId::from(format!("user-{i}")), 7))
        .collect();
    assert!(owners.iter().any(|owner| *owner != owners[0]), "users are spread");
}

#[test]
fn shards_act_as_one_store() {
    let mut one = InMemoryProfiles::new();
    let mut shards = InMemoryProfiles::with_shards(4);
    let mask = shards.len() - 1;
    for i in 0..16u64 {
        let id = UserId::from(format!("user-{}", i % 8));
        let shard = &mut shards[shard_of(&id, mask)];
        assert_eq!(
            shard.create_at(&id, input(&i.to_string()), i),
            one.create_at(&id, input(&i.to_string()), i)
        );
        let expected = Version::from_counter(1 + i % 3);
        assert_eq!(
            shard.update_at(&id, expected, input("next"), i).expect("healthy"),
            one.update_at(&id, expected, input("next"), i).expect("healthy")
        );
    }
    for i in 0..8 {
        let id = UserId::from(format!("user-{i}"));
        let shard = &shards[shard_of(&id, mask)];
        assert_eq!(shard.read(&id), one.read(&id));
        assert_eq!(
            Repository::history(shard, &id).expect("healthy"),
            Repository::history(&one, &id).expect("healthy")
        );
    }
}
