//! Named settings, as the environment gives them.

use crate::common::text::same_text;
use vstd::prelude::*;

verus! {

/// What a list of settings says.
pub open spec fn settings_view(settings: Seq<(String, String)>) -> Seq<(Seq<char>, Seq<char>)> {
    Seq::new(settings.len(), |i: int| (settings[i].0@, settings[i].1@))
}

/// The first setting called `key`, or the default where there is none.
pub open spec fn setting(
    settings: Seq<(Seq<char>, Seq<char>)>,
    key: Seq<char>,
    default: Seq<char>,
) -> Seq<char>
    decreases settings.len(),
{
    if settings.len() == 0 {
        default
    } else if settings[0].0 == key {
        settings[0].1
    } else {
        setting(settings.skip(1), key, default)
    }
}

/// The first setting called `key`, or the default where there is none.
pub fn var(settings: &Vec<(String, String)>, key: &str, default: &str) -> (r: String)
    ensures
        r@ == setting(settings_view(settings@), key@, default@),
{
    let ghost all = settings_view(settings@);
    let mut i: usize = 0;
    assert(all.skip(0) =~= all);
    while i < settings.len()
        invariant
            i <= settings.len(),
            all == settings_view(settings@),
            setting(all, key@, default@) == setting(all.skip(i as int), key@, default@),
        decreases settings.len() - i,
    {
        assert(all.skip(i as int)[0] == (settings@[i as int].0@, settings@[i as int].1@));
        if same_text(settings[i].0.as_str(), key) {
            return settings[i].1.clone();
        }
        assert(all.skip(i as int).skip(1) =~= all.skip(i + 1));
        i = i + 1;
    }
    default.to_owned()
}

/// The first setting of a name counts, as it is; the default stands in only where
/// there is none.
pub proof fn law_the_first_setting_counts(
    settings: Seq<(Seq<char>, Seq<char>)>,
    key: Seq<char>,
    default: Seq<char>,
    at: int,
)
    requires
        0 <= at <= settings.len(),
        forall|i: int| 0 <= i < at ==> (#[trigger] settings[i]).0 != key,
    ensures
        at < settings.len() && settings[at].0 == key ==> setting(settings, key, default)
            == settings[at].1,
        at == settings.len() ==> setting(settings, key, default) == default,
    decreases at,
{
    if at > 0 {
        assert(settings[0].0 != key);
        assert forall|i: int| 0 <= i < at - 1 implies (#[trigger] settings.skip(1)[i]).0 != key by {
            assert(settings[i + 1].0 != key);
        }
        law_the_first_setting_counts(settings.skip(1), key, default, at - 1);
    }
}

/// The settings are seen whole: every one of them, in its place.
pub proof fn law_settings_are_seen_whole(settings: Seq<(String, String)>, at: int)
    ensures
        settings_view(settings).len() == settings.len(),
        0 <= at < settings.len() ==> settings_view(settings)[at] == (
            settings[at].0@,
            settings[at].1@,
        ),
{
}

} // verus!
