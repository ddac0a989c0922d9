//! What the statements of [`sqlite`](crate::profile::store::sqlite) do to the
//! two tables, and that whatever the database answers, the operations run over
//! them keep the contract of a profile store.

use crate::common::dto::{InputView, ProfileView};
use crate::common::version::INITIAL;
use crate::profile::store::sqlite::{
    create_next, create_opening, create_start, row_profile, row_revision, update_next,
    update_opening, update_start, ActionView, CreateStepView, CreateView, EventView, FaultView,
    OutcomeView, ProfileRowView, RevisionRowView, UpdateStepView, UpdateView,
};
use crate::profile::store::{
    accepted, after_create, after_update, create_answer, current, history_of, is_applied,
    is_history, projection, Histories, RevisionView, LAST_PORTABLE,
};
use vstd::prelude::*;

verus! {

/// The rows of the two tables, by primary key.
#[verifier::ext_equal]
pub struct Tables {
    /// The current projections, by owner.
    pub profiles: Map<Seq<char>, ProfileRowView>,
    /// The accepted writes, by owner and version.
    pub revisions: Map<(Seq<char>, int), RevisionRowView>,
}

/// Whether the database, holding `before`, may answer `event` to `action` and
/// hold `after` from then on. Any action may fail, and one that fails changes
/// nothing; a second row with the same primary key, or a timestamp beyond the
/// signed 64-bit range, does fail.
pub open spec fn may_answer(
    before: Tables,
    action: ActionView,
    event: EventView,
    after: Tables,
) -> bool {
    if event is Failed {
        after == before
    } else {
        match action {
            ActionView::Begin { .. } => event is Done && after == before,
            ActionView::Commit => event is Done && after == before,
            ActionView::InsertProfile { user, input, version } => {
                if before.profiles.contains_key(user) {
                    event == EventView::Changed(0) && after == before
                } else {
                    event == EventView::Changed(1) && after == Tables {
                        profiles: before.profiles.insert(
                            user,
                            ProfileRowView {
                                address: input.address,
                                phone_number: input.phone_number,
                                version,
                            },
                        ),
                        ..before
                    }
                }
            },
            ActionView::InsertRevision { user, input, version, recorded_at_ms } => {
                &&& !before.revisions.contains_key((user, version as int))
                &&& recorded_at_ms <= i64::MAX
                &&& event == EventView::Changed(1)
                &&& after == Tables {
                    revisions: before.revisions.insert(
                        (user, version as int),
                        RevisionRowView {
                            version,
                            address: input.address,
                            phone_number: input.phone_number,
                            recorded_at_ms,
                        },
                    ),
                    ..before
                }
            },
            ActionView::UpdateProfile { user, input, next, expected } => {
                if before.profiles.contains_key(user) && before.profiles[user].version
                    == expected {
                    event == EventView::Changed(1) && after == Tables {
                        profiles: before.profiles.insert(
                            user,
                            ProfileRowView {
                                address: input.address,
                                phone_number: input.phone_number,
                                version: next,
                            },
                        ),
                        ..before
                    }
                } else {
                    event == EventView::Changed(0) && after == before
                }
            },
            ActionView::ReadVersion { user } => {
                &&& after == before
                &&& event == EventView::Version(
                    if before.profiles.contains_key(user) {
                        Some(before.profiles[user].version)
                    } else {
                        None
                    },
                )
            },
            ActionView::ReadProfile { .. } => false,
            ActionView::ReadRevisions { .. } => false,
        }
    }
}

/// Whether `rows` is what reading the accepted writes of `user` gives: each row
/// of that owner once, by ascending version.
pub open spec fn may_list(tables: Tables, user: Seq<char>, rows: Seq<RevisionRowView>) -> bool {
    &&& forall|i: int|
        0 <= i < rows.len() ==> {
            &&& tables.revisions.contains_key((user, (#[trigger] rows[i]).version as int))
            &&& tables.revisions[(user, rows[i].version as int)] == rows[i]
        }
    &&& forall|i: int, j: int| 0 <= i < j < rows.len() ==> rows[i].version < rows[j].version
    &&& forall|version: int| #[trigger]
        tables.revisions.contains_key((user, version)) ==> exists|i: int|
            0 <= i < rows.len() && #[trigger] rows[i] == tables.revisions[(user, version)]
}

/// The row that an accepted write is kept in.
pub open spec fn kept_row(revision: RevisionView) -> RevisionRowView {
    RevisionRowView {
        version: revision.version as i64,
        address: revision.address,
        phone_number: revision.phone_number,
        recorded_at_ms: revision.recorded_at_ms,
    }
}

/// Whether the tables hold exactly these histories: a row for every accepted
/// write, and beside them one for the newest of each user.
pub open spec fn holds(tables: Tables, all: Histories) -> bool {
    &&& tables.profiles.dom() == all.dom()
    &&& forall|user: Seq<char>| #[trigger]
        all.contains_key(user) ==> {
            &&& is_history(all[user])
            &&& all[user].len() <= i64::MAX
            &&& row_profile(user, tables.profiles[user]) == projection(user, all[user].last())
            &&& tables.profiles[user].version == all[user].len()
        }
    &&& forall|user: Seq<char>, version: int| #[trigger]
        tables.revisions.contains_key((user, version)) <==> all.contains_key(user) && INITIAL
            <= version <= all[user].len()
    &&& forall|user: Seq<char>, version: int| #[trigger]
        tables.revisions.contains_key((user, version)) ==> tables.revisions[(user, version)]
            == kept_row(all[user][version - INITIAL])
}

/// Tables without rows hold no history.
pub proof fn law_fresh_tables_hold_nothing()
    ensures
        holds(Tables { profiles: Map::empty(), revisions: Map::empty() }, Histories::empty()),
{
    assert(Map::<Seq<char>, ProfileRowView>::empty().dom() =~= Histories::empty().dom());
}

/// One answer of the database, with the tables from then on and the reading of
/// the clock when the answer came.
pub struct Answer {
    /// What the database answered.
    pub event: EventView,
    /// What it holds from then on.
    pub after: Tables,
    /// The time, in milliseconds since the Unix epoch.
    pub now: u64,
}

/// Whether no action fails.
pub open spec fn is_faultless(answers: Seq<Answer>) -> bool {
    forall|i: int| 0 <= i < answers.len() ==> !((#[trigger] answers[i]).event is Failed)
}

/// How an update ends that waits for the answer to `pending` and gets these
/// answers one after another: what it answers, and what the tables hold. `base`
/// is what the transaction started from, and `work` what it has made of it.
/// Nothing where the database cannot answer so, or the answers do not last.
pub open spec fn update_end(
    run: UpdateView,
    pending: ActionView,
    base: Tables,
    work: Tables,
    answers: Seq<Answer>,
) -> Option<(Result<OutcomeView, FaultView>, Tables)>
    decreases answers.len(),
{
    if answers.len() == 0 || !may_answer(work, pending, answers[0].event, answers[0].after) {
        None
    } else {
        let (next, step) = update_next(run, answers[0].event, answers[0].now);
        match step {
            UpdateStepView::Perform(action) => update_end(
                next,
                action,
                base,
                answers[0].after,
                answers.skip(1),
            ),
            UpdateStepView::Finish { outcome, roll_back } => Some(
                (
                    outcome,
                    if roll_back {
                        base
                    } else {
                        answers[0].after
                    },
                ),
            ),
        }
    }
}

/// As [`update_end`], of a create.
pub open spec fn create_end(
    run: CreateView,
    pending: ActionView,
    base: Tables,
    work: Tables,
    answers: Seq<Answer>,
) -> Option<(Result<Option<ProfileView>, FaultView>, Tables)>
    decreases answers.len(),
{
    if answers.len() == 0 || !may_answer(work, pending, answers[0].event, answers[0].after) {
        None
    } else {
        let (next, step) = create_next(run, answers[0].event, answers[0].now);
        match step {
            CreateStepView::Perform(action) => create_end(
                next,
                action,
                base,
                answers[0].after,
                answers.skip(1),
            ),
            CreateStepView::Finish { outcome, roll_back } => Some(
                (
                    outcome,
                    if roll_back {
                        base
                    } else {
                        answers[0].after
                    },
                ),
            ),
        }
    }
}

/// The row of a profile after a write.
spec fn written_row(input: InputView, version: int) -> ProfileRowView {
    ProfileRowView {
        address: input.address,
        phone_number: input.phone_number,
        version: version as i64,
    }
}

/// The tables after a write of `user` at `version`.
spec fn written(tables: Tables, user: Seq<char>, input: InputView, version: int, now: u64)
    -> Tables {
    Tables {
        profiles: tables.profiles.insert(user, written_row(input, version)),
        revisions: tables.revisions.insert(
            (user, version),
            RevisionRowView {
                version: version as i64,
                address: input.address,
                phone_number: input.phone_number,
                recorded_at_ms: now,
            },
        ),
    }
}

/// Writing the next version of a history keeps the tables in step with it.
proof fn lemma_written_holds(
    tables: Tables,
    all: Histories,
    user: Seq<char>,
    input: InputView,
    now: u64,
    later: Histories,
)
    requires
        holds(tables, all),
        history_of(all, user).len() < i64::MAX,
        later == all.insert(
            user,
            history_of(all, user).push(
                accepted((history_of(all, user).len() + 1) as u64, input, now),
            ),
        ),
    ensures
        holds(
            written(tables, user, input, history_of(all, user).len() as int + 1, now),
            later,
        ),
{
    let old = history_of(all, user);
    let version = old.len() as int + 1;
    let revision = accepted(version as u64, input, now);
    let after = written(tables, user, input, version, now);
    assert(later[user] == old.push(revision));
    assert(after.profiles.dom() =~= later.dom());
    assert forall|other: Seq<char>| #[trigger] later.contains_key(other) implies {
        &&& is_history(later[other])
        &&& later[other].len() <= i64::MAX
        &&& row_profile(other, after.profiles[other]) == projection(other, later[other].last())
        &&& after.profiles[other].version == later[other].len()
    } by {
        if other == user {
            assert forall|i: int| 0 <= i < later[user].len() implies (#[trigger] later[user][i]).version
                == INITIAL + i by {
                if i < old.len() {
                    assert(old[i].version == INITIAL + i);
                }
            }
            assert(later[user].last() == revision);
        } else {
            assert(all.contains_key(other));
        }
    }
    assert forall|other: Seq<char>, v: int| #[trigger]
        after.revisions.contains_key((other, v)) <==> later.contains_key(other) && INITIAL <= v
            <= later[other].len() by {
        assert(tables.revisions.contains_key((other, v)) <==> all.contains_key(other) && INITIAL
            <= v <= all[other].len());
        if other == user {
            assert(all.contains_key(user) ==> all[user].len() == old.len());
        }
    }
    assert forall|other: Seq<char>, v: int| #[trigger]
        after.revisions.contains_key((other, v)) implies after.revisions[(other, v)] == kept_row(
        later[other][v - INITIAL],
    ) by {
        if other == user && v == version {
            assert(later[user][v - INITIAL] == revision);
        } else {
            assert(tables.revisions.contains_key((other, v)));
            if other == user {
                assert(later[user][v - INITIAL] == old[v - INITIAL]);
            }
        }
    }
}

/// An update run over tables that hold some histories answers what a profile
/// store answers, and leaves tables that hold what a profile store leaves
/// behind. A failure changes nothing; where no action fails, the one failure
/// left is a profile at the quoted version whose counter cannot advance.
pub proof fn law_update_keeps_the_contract(
    tables: Tables,
    all: Histories,
    user: Seq<char>,
    expected: u64,
    input: InputView,
    answers: Seq<Answer>,
    outcome: Result<OutcomeView, FaultView>,
    after: Tables,
)
    requires
        holds(tables, all),
        update_end(
            update_start(user, expected, input),
            update_opening(),
            tables,
            tables,
            answers,
        ) == Some((outcome, after)),
    ensures
        match outcome {
            Ok(OutcomeView::Applied(profile)) => {
                &&& is_applied(all, user, expected)
                &&& profile == projection(user, accepted((expected + 1) as u64, input, 0))
                &&& answers.len() >= 4
                &&& holds(after, after_update(all, user, expected, input, answers[1].now))
            },
            Ok(OutcomeView::Stale(version)) => {
                &&& current(all, user) matches Some(profile) && profile.version == version
                &&& version != expected
                &&& after == tables
            },
            Ok(OutcomeView::Missing) => current(all, user) is None && after == tables,
            Err(FaultView::Exhausted) => {
                &&& expected >= LAST_PORTABLE
                &&& current(all, user) matches Some(profile) && profile.version == expected
                &&& after == tables
            },
            Err(FaultView::Backend(_)) => !is_faultless(answers) && after == tables,
        },
        is_faultless(answers) ==> (outcome is Err <==> expected >= LAST_PORTABLE && (current(
            all,
            user,
        ) matches Some(profile) && profile.version == expected)),
{
    reveal_with_fuel(update_end, 5);
    let second = answers.skip(1);
    let third = second.skip(1);
    let fourth = third.skip(1);
    assert(answers.len() > 1 ==> second[0] == answers[1]);
    assert(answers.len() > 2 ==> third[0] == answers[2]);
    assert(answers.len() > 3 ==> fourth[0] == answers[3]);
    assert(all.contains_key(user) <==> tables.profiles.contains_key(user));
    if all.contains_key(user) {
        let history = all[user];
        assert(history.last() == history[history.len() - 1]);
    }
    if outcome is Ok && outcome->Ok_0 is Applied {
        let now = second[0].now;
        let later = after_update(all, user, expected, input, now);
        lemma_written_holds(tables, all, user, input, now, later);
        assert(after == written(tables, user, input, expected + 1, now));
    }
}

/// A create run over tables that hold some histories answers what a profile
/// store answers, and leaves tables that hold what a profile store leaves
/// behind. It fails only where an action does, and then changes nothing.
pub proof fn law_create_keeps_the_contract(
    tables: Tables,
    all: Histories,
    user: Seq<char>,
    input: InputView,
    answers: Seq<Answer>,
    outcome: Result<Option<ProfileView>, FaultView>,
    after: Tables,
)
    requires
        holds(tables, all),
        create_end(create_start(user, input), create_opening(), tables, tables, answers) == Some(
            (outcome, after),
        ),
    ensures
        match outcome {
            Ok(answer) => {
                &&& answer == create_answer(all, user, input)
                &&& holds(after, after_create(all, user, input, answers[0].now))
            },
            Err(fault) => !is_faultless(answers) && after == tables && fault is Backend,
        },
{
    reveal_with_fuel(create_end, 5);
    let second = answers.skip(1);
    let third = second.skip(1);
    let fourth = third.skip(1);
    assert(answers.len() > 1 ==> second[0] == answers[1]);
    assert(answers.len() > 2 ==> third[0] == answers[2]);
    assert(answers.len() > 3 ==> fourth[0] == answers[3]);
    assert(all.contains_key(user) <==> tables.profiles.contains_key(user));
    if outcome is Ok {
        let now = answers[0].now;
        let later = after_create(all, user, input, now);
        if outcome->Ok_0 is Some {
            assert(later =~= all.insert(
                user,
                history_of(all, user).push(accepted(INITIAL, input, now)),
            ));
            lemma_written_holds(tables, all, user, input, now, later);
            assert(after == written(tables, user, input, INITIAL as int, now));
        }
        assert(holds(after, later));
    }
}

/// The row read for a user's profile, over tables that hold some histories, is
/// the current projection.
pub proof fn law_read_gives_the_current_profile(tables: Tables, all: Histories, user: Seq<char>)
    requires
        holds(tables, all),
    ensures
        current(all, user) == if tables.profiles.contains_key(user) {
            Some(row_profile(user, tables.profiles[user]))
        } else {
            None
        },
{
    assert(all.contains_key(user) <==> tables.profiles.contains_key(user));
}

/// The rows read for a user's accepted writes, over tables that hold some
/// histories, are the user's history, oldest first.
pub proof fn law_list_gives_the_history(
    tables: Tables,
    all: Histories,
    user: Seq<char>,
    rows: Seq<RevisionRowView>,
)
    requires
        holds(tables, all),
        may_list(tables, user, rows),
    ensures
        rows.map_values(|row: RevisionRowView| row_revision(row)) == history_of(all, user),
{
    let history = history_of(all, user);
    assert forall|i: int| 0 <= i < rows.len() implies (#[trigger] rows[i]).version == INITIAL + i
        && i < history.len() by {
        lemma_rows_count_up(tables, all, user, rows, i);
    }
    if rows.len() > 0 {
        assert(rows[rows.len() - 1].version == rows.len());
    }
    if rows.len() < history.len() {
        assert(all.contains_key(user));
        let version = rows.len() + INITIAL;
        assert(tables.revisions.contains_key((user, version)));
        let i = choose|i: int|
            0 <= i < rows.len() && #[trigger] rows[i] == tables.revisions[(user, version)];
        assert(tables.revisions[(user, version)] == kept_row(history[version - INITIAL]));
        assert(history[version - INITIAL].version == version);
        assert(rows[i].version == INITIAL + i);
    }
    assert(rows.len() == history.len());
    assert forall|i: int| 0 <= i < history.len() implies row_revision(#[trigger] rows[i])
        == history[i] by {
        assert(tables.revisions.contains_key((user, rows[i].version as int)));
        assert(rows[i] == kept_row(history[i]));
        assert(history[i].version == INITIAL + i);
    }
    assert(rows.map_values(|row: RevisionRowView| row_revision(row)) =~= history);
}

/// Rows listed by ascending version count up from the first.
proof fn lemma_rows_count_up(
    tables: Tables,
    all: Histories,
    user: Seq<char>,
    rows: Seq<RevisionRowView>,
    i: int,
)
    requires
        holds(tables, all),
        may_list(tables, user, rows),
        0 <= i < rows.len(),
    ensures
        rows[i].version == INITIAL + i,
        i < history_of(all, user).len(),
    decreases i,
{
    let history = history_of(all, user);
    assert(tables.revisions.contains_key((user, rows[i].version as int)));
    if i > 0 {
        lemma_rows_count_up(tables, all, user, rows, i - 1);
    }
    if rows[i].version > INITIAL + i {
        let version = INITIAL + i;
        assert(tables.revisions.contains_key((user, version)));
        let j = choose|j: int|
            0 <= j < rows.len() && #[trigger] rows[j] == tables.revisions[(user, version)];
        assert(rows[j] == kept_row(history[version - INITIAL]));
        assert(history[version - INITIAL].version == version);
        assert(rows[j].version == version);
        if j < i {
            assert(rows[j].version <= rows[i - 1].version);
        }
    }
}

} // verus!
