//! What holds of every profile store, over any run of its operations.

use crate::common::dto::{InputView, ProfileView};
use crate::common::version::INITIAL;
use crate::profile::store::{
    accepted, after_create, after_update, are_histories, create_answer, current, history_of,
    is_applied, is_history, update_answer, Histories, Update,
};
use vstd::prelude::*;

verus! {

/// Whether `later` keeps every accepted write of `earlier`, in its place.
pub open spec fn extends(earlier: Histories, later: Histories) -> bool {
    forall|user: Seq<char>|
        #![trigger earlier.contains_key(user)]
        #![trigger later.contains_key(user)]
        earlier.contains_key(user) ==> later.contains_key(user) && earlier[user].len()
            <= later[user].len() && later[user].take(earlier[user].len() as int) == earlier[user]
}

/// Creating a profile keeps every history counting up from the first version.
pub proof fn law_create_keeps_order(all: Histories, user: Seq<char>, input: InputView, now: u64)
    requires
        are_histories(all),
    ensures
        are_histories(after_create(all, user, input, now)),
{
}

/// Updating a profile keeps every history counting up from the first version.
pub proof fn law_update_keeps_order(
    all: Histories,
    user: Seq<char>,
    expected: u64,
    input: InputView,
    now: u64,
)
    requires
        are_histories(all),
    ensures
        are_histories(after_update(all, user, expected, input, now)),
{
    let after = after_update(all, user, expected, input, now);
    assert forall|other: Seq<char>| #[trigger] after.contains_key(other) implies is_history(
        after[other],
    ) by {
        if other == user && is_applied(all, user, expected) {
            let history = all[user];
            assert(history.last() == history[history.len() - 1]);
        }
    }
}

/// The version of a profile is the number of writes accepted for it.
pub proof fn law_version_counts_writes(all: Histories, user: Seq<char>)
    requires
        are_histories(all),
        all.contains_key(user),
    ensures
        current(all, user) matches Some(profile) && profile.version == history_of(all, user).len(),
{
    let history = all[user];
    assert(history.last() == history[history.len() - 1]);
}

/// A created profile reads back as it was answered, at the first version and
/// with one write in its history.
pub proof fn law_created_reads_back(all: Histories, user: Seq<char>, input: InputView, now: u64)
    requires
        !all.contains_key(user),
    ensures
        current(after_create(all, user, input, now), user) == create_answer(all, user, input),
        create_answer(all, user, input) matches Some(profile) && profile.version == INITIAL
            && profile.address == input.address && profile.phone_number == input.phone_number,
        history_of(after_create(all, user, input, now), user) == seq![
            accepted(INITIAL, input, now),
        ],
{
}

/// A second create answers nothing and changes nothing.
pub proof fn law_create_never_overwrites(
    all: Histories,
    user: Seq<char>,
    first: InputView,
    second: InputView,
    now: u64,
    later: u64,
)
    ensures
        create_answer(after_create(all, user, first, now), user, second) is None,
        after_create(after_create(all, user, first, now), user, second, later) == after_create(
            all,
            user,
            first,
            now,
        ),
{
}

/// An applied write reads back whole, one version on: both fields are those of
/// this one write.
pub proof fn law_applied_reads_back(
    all: Histories,
    user: Seq<char>,
    expected: u64,
    input: InputView,
    now: u64,
)
    requires
        is_applied(all, user, expected),
    ensures
        current(after_update(all, user, expected, input, now), user) matches Some(profile)
            && profile.user_id == user && profile.version == expected + 1 && profile.address
            == input.address && profile.phone_number == input.phone_number,
{
}

/// A write that is not applied changes nothing.
pub proof fn law_refused_changes_nothing(
    all: Histories,
    user: Seq<char>,
    expected: u64,
    input: InputView,
    now: u64,
)
    requires
        !is_applied(all, user, expected),
    ensures
        after_update(all, user, expected, input, now) == all,
{
}

/// No operation on one user's profile touches another's.
pub proof fn law_others_are_untouched(
    all: Histories,
    user: Seq<char>,
    other: Seq<char>,
    expected: u64,
    input: InputView,
    now: u64,
)
    requires
        other != user,
    ensures
        history_of(after_create(all, user, input, now), other) == history_of(all, other),
        current(after_create(all, user, input, now), other) == current(all, other),
        history_of(after_update(all, user, expected, input, now), other) == history_of(all, other),
        current(after_update(all, user, expected, input, now), other) == current(all, other),
{
}

/// Creating a profile drops no accepted write.
pub proof fn law_create_extends(all: Histories, user: Seq<char>, input: InputView, now: u64)
    ensures
        extends(all, after_create(all, user, input, now)),
{
    let after = after_create(all, user, input, now);
    assert forall|other: Seq<char>| all.contains_key(other) implies after.contains_key(other)
        && all[other].len() <= after[other].len() && after[other].take(all[other].len() as int)
        == all[other] by {
        assert(all[other].take(all[other].len() as int) =~= all[other]);
    }
}

/// Updating a profile drops no accepted write.
pub proof fn law_update_extends(
    all: Histories,
    user: Seq<char>,
    expected: u64,
    input: InputView,
    now: u64,
)
    ensures
        extends(all, after_update(all, user, expected, input, now)),
{
    let after = after_update(all, user, expected, input, now);
    assert forall|other: Seq<char>| all.contains_key(other) implies after.contains_key(other)
        && all[other].len() <= after[other].len() && after[other].take(all[other].len() as int)
        == all[other] by {
        assert(after[other].take(all[other].len() as int) =~= all[other]);
    }
}

/// Keeping every accepted write carries over any number of operations.
pub proof fn law_extends_is_transitive(first: Histories, second: Histories, third: Histories)
    requires
        extends(first, second),
        extends(second, third),
    ensures
        extends(first, third),
{
    assert forall|user: Seq<char>| first.contains_key(user) implies third.contains_key(user)
        && first[user].len() <= third[user].len() && third[user].take(first[user].len() as int)
        == first[user] by {
        assert(second.contains_key(user));
        assert(third[user].take(first[user].len() as int) =~= third[user].take(
            second[user].len() as int,
        ).take(first[user].len() as int));
    }
}

/// No update is lost: whatever happened since a writer read the profile, its
/// write is applied only if what it read is still what is stored.
pub proof fn law_applied_write_saw_the_latest(
    read: Histories,
    written: Histories,
    user: Seq<char>,
    expected: u64,
)
    requires
        are_histories(read),
        are_histories(written),
        extends(read, written),
        current(read, user) matches Some(profile) && profile.version == expected,
        is_applied(written, user, expected),
    ensures
        current(written, user) == current(read, user),
{
    law_version_counts_writes(read, user);
    law_version_counts_writes(written, user);
    assert(written[user].take(read[user].len() as int) =~= written[user]);
}

/// Of two writers that quote the same version, the second is never applied,
/// whatever happened in between.
pub proof fn law_a_version_is_replaced_once(
    all: Histories,
    user: Seq<char>,
    expected: u64,
    input: InputView,
    now: u64,
    later: Histories,
)
    requires
        are_histories(all),
        is_applied(all, user, expected),
        are_histories(later),
        extends(after_update(all, user, expected, input, now), later),
    ensures
        !is_applied(later, user, expected),
{
    let after = after_update(all, user, expected, input, now);
    law_version_counts_writes(all, user);
    assert(after.contains_key(user));
    law_version_counts_writes(later, user);
}

/// What a line of writers leaves behind, each quoting the same version.
pub open spec fn after_writers(
    all: Histories,
    user: Seq<char>,
    expected: u64,
    writers: Seq<(InputView, u64)>,
) -> Histories
    decreases writers.len(),
{
    if writers.len() == 0 {
        all
    } else {
        let (input, now) = writers.last();
        after_update(
            after_writers(all, user, expected, writers.drop_last()),
            user,
            expected,
            input,
            now,
        )
    }
}

/// How many of a line of writers are applied, each quoting the same version.
pub open spec fn applied_writers(
    all: Histories,
    user: Seq<char>,
    expected: u64,
    writers: Seq<(InputView, u64)>,
) -> nat
    decreases writers.len(),
{
    if writers.len() == 0 {
        0
    } else {
        applied_writers(all, user, expected, writers.drop_last()) + if is_applied(
            after_writers(all, user, expected, writers.drop_last()),
            user,
            expected,
        ) {
            1nat
        } else {
            0nat
        }
    }
}

/// However many writers quote the current version, and in whatever order they
/// come, exactly one of them is applied.
pub proof fn law_exactly_one_writer_wins(
    all: Histories,
    user: Seq<char>,
    expected: u64,
    writers: Seq<(InputView, u64)>,
)
    requires
        are_histories(all),
        is_applied(all, user, expected),
        writers.len() > 0,
    ensures
        applied_writers(all, user, expected, writers) == 1,
        current(after_writers(all, user, expected, writers), user) matches Some(profile)
            && profile.version == expected + 1 && profile.address == writers[0].0.address
            && profile.phone_number == writers[0].0.phone_number,
    decreases writers.len(),
{
    let before = writers.drop_last();
    if before.len() == 0 {
        assert(applied_writers(all, user, expected, before) == 0);
        assert(after_writers(all, user, expected, before) == all);
    } else {
        law_exactly_one_writer_wins(all, user, expected, before);
    }
}

/// What shards hold together, where `route` says which of them owns a user.
pub open spec fn together(shards: Seq<Histories>, route: spec_fn(Seq<char>) -> int) -> Histories {
    Map::new(
        |user: Seq<char>|
            0 <= route(user) < shards.len() && shards[route(user)].contains_key(user),
        |user: Seq<char>| shards[route(user)][user],
    )
}

/// Shards act as one store: whichever way users are spread over them, an
/// operation at the shard that owns its user answers, and leaves behind, what
/// one store that held everything would.
pub proof fn law_shards_act_as_one(
    shards: Seq<Histories>,
    route: spec_fn(Seq<char>) -> int,
    user: Seq<char>,
    expected: u64,
    input: InputView,
    now: u64,
)
    requires
        0 <= route(user) < shards.len(),
    ensures
        current(shards[route(user)], user) == current(together(shards, route), user),
        history_of(shards[route(user)], user) == history_of(together(shards, route), user),
        create_answer(shards[route(user)], user, input) == create_answer(
            together(shards, route),
            user,
            input,
        ),
        is_applied(shards[route(user)], user, expected) == is_applied(
            together(shards, route),
            user,
            expected,
        ),
        together(
            shards.update(route(user), after_create(shards[route(user)], user, input, now)),
            route,
        ) == after_create(together(shards, route), user, input, now),
        together(
            shards.update(
                route(user),
                after_update(shards[route(user)], user, expected, input, now),
            ),
            route,
        ) == after_update(together(shards, route), user, expected, input, now),
{
    let all = together(shards, route);
    let own = shards[route(user)];
    assert(own.contains_key(user) <==> all.contains_key(user));
    assert(together(
        shards.update(route(user), after_create(own, user, input, now)),
        route,
    ) =~= after_create(all, user, input, now));
    assert(together(
        shards.update(route(user), after_update(own, user, expected, input, now)),
        route,
    ) =~= after_update(all, user, expected, input, now));
}

/// When a write is applied, said of the stored history: there is one, its newest
/// revision has the version that the writer quotes, and that can be counted on
/// from.
pub proof fn law_writes_are_applied_to_the_quoted_version(
    all: Histories,
    user: Seq<char>,
    expected: u64,
)
    ensures
        is_applied(all, user, expected) <==> all.contains_key(user) && all[user].last().version
            == expected && expected < 18_446_744_073_709_551_615,
{
}

/// An applied write adds one revision to the end of its user's history, and that
/// is all it does: the revision is at the next version, says what the writer
/// said, and was recorded when it was written.
pub proof fn law_an_applied_write_is_recorded(
    all: Histories,
    user: Seq<char>,
    expected: u64,
    input: InputView,
    now: u64,
)
    requires
        is_applied(all, user, expected),
    ensures
        ({
            let after = after_update(all, user, expected, input, now);
            &&& after.contains_key(user)
            &&& after.remove(user) == all.remove(user)
            &&& after[user].len() == all[user].len() + 1
            &&& after[user].drop_last() == all[user]
            &&& after[user].last().version == expected + 1
            &&& after[user].last().address == input.address
            &&& after[user].last().phone_number == input.phone_number
            &&& after[user].last().recorded_at_ms == now
        }),
{
    let after = after_update(all, user, expected, input, now);
    assert(after.remove(user) =~= all.remove(user));
    assert(after[user].drop_last() =~= all[user]);
}

/// A create gives its user a history of one revision, and that is all it does: the
/// revision is at version one, says what the writer said, and was recorded when
/// it was written. Where there is a history already nothing changes.
pub proof fn law_a_create_is_recorded(all: Histories, user: Seq<char>, input: InputView, now: u64)
    ensures
        all.contains_key(user) ==> after_create(all, user, input, now) == all && create_answer(
            all,
            user,
            input,
        ) is None,
        !all.contains_key(user) ==> {
            let after = after_create(all, user, input, now);
            &&& after.contains_key(user)
            &&& after.remove(user) == all
            &&& after[user].len() == 1
            &&& after[user][0].version == 1
            &&& after[user][0].address == input.address
            &&& after[user][0].phone_number == input.phone_number
            &&& after[user][0].recorded_at_ms == now
            &&& create_answer(all, user, input) == Some(
                ProfileView {
                    user_id: user,
                    address: input.address,
                    phone_number: input.phone_number,
                    version: 1,
                },
            )
        },
{
    if !all.contains_key(user) {
        assert(after_create(all, user, input, now).remove(user) =~= all);
    }
}

/// The current profile is the newest revision, in its user's name; who has no
/// history has no profile.
pub proof fn law_the_profile_is_the_newest_revision(all: Histories, user: Seq<char>)
    ensures
        current(all, user) is Some <==> all.contains_key(user),
        history_of(all, user) == if all.contains_key(user) {
            all[user]
        } else {
            Seq::empty()
        },
        current(all, user) matches Some(profile) ==> {
            &&& profile.user_id == user
            &&& profile.version == all[user].last().version
            &&& profile.address == all[user].last().address
            &&& profile.phone_number == all[user].last().phone_number
        },
{
}

/// What an update answers, whatever the store holds: the new profile exactly where
/// the write is applied, the stored version exactly where another is quoted, and
/// that there is nothing exactly where there is nothing.
pub proof fn law_updates_are_answered_by_what_is_stored(
    all: Histories,
    user: Seq<char>,
    expected: u64,
    input: InputView,
    answer: Update,
)
    requires
        update_answer(all, user, expected, input, answer),
        expected < u64::MAX,
    ensures
        answer is Missing <==> !all.contains_key(user),
        answer is Stale <==> all.contains_key(user) && all[user].last().version != expected,
        answer is Applied <==> all.contains_key(user) && all[user].last().version == expected,
        answer matches Update::Stale { current_version } ==> current_version.0
            == all[user].last().version,
        answer matches Update::Applied(profile) ==> {
            &&& profile@.user_id == user
            &&& profile@.version == expected + 1
            &&& profile@.address == input.address
            &&& profile@.phone_number == input.phone_number
        },
{
}

} // verus!
