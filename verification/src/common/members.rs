//! The members of a JSON object, in the order in which they are written.
//!
//! Reading an object into a map hides that a name was repeated, and asks of a
//! member that nobody looks at that the map can hold it. So an object is walked
//! here: where each value ends, and what a text or a number says, the JSON
//! library tells; what is skipped is only looked at for where it ends.

use crate::common::text::same_text;
use vstd::prelude::*;
use vstd::slice::slice_subrange;

verus! {

/// What opens an object.
pub const OPENING_BRACE: u8 = 0x7B;

/// What closes an object.
pub const CLOSING_BRACE: u8 = 0x7D;

/// What stands between a name and its value.
pub const COLON: u8 = 0x3A;

/// What stands between two members.
pub const COMMA: u8 = 0x2C;

/// White space.
pub const SPACE: u8 = 0x20;

/// White space.
pub const TAB: u8 = 0x09;

/// White space.
pub const LINE_FEED: u8 = 0x0A;

/// White space.
pub const CARRIAGE_RETURN: u8 = 0x0D;

/// How many bytes the JSON value takes up that `bytes` begin with, the white
/// space in front of it included; nothing where they begin with none.
pub uninterp spec fn json_length(bytes: Seq<u8>) -> Option<usize>;

/// Calls `serde_json::Deserializer::from_slice` for a stream of values of which
/// nothing is kept, and asks `StreamDeserializer::byte_offset` where the first
/// one ends. The claim is that the outcome depends on the bytes alone, that a
/// value takes up a byte at least, and that it ends within them.
#[verifier::external_body]
fn value_length(bytes: &[u8]) -> (r: Option<usize>)
    ensures
        r == json_length(bytes@),
        r matches Some(length) ==> 0 < length <= bytes@.len(),
{
    let reader = serde_json::Deserializer::from_slice(bytes);
    let mut values = reader.into_iter::<serde::de::IgnoredAny>();
    values.next()?.ok()?;
    Some(values.byte_offset())
}

/// The text that the JSON string says which `bytes` are; nothing where they are
/// none.
pub uninterp spec fn json_says(bytes: Seq<u8>) -> Option<Seq<char>>;

/// Calls `serde_json::from_slice` for a `String`. The claim is that the outcome
/// depends on the bytes alone.
#[verifier::external_body]
fn text_of(bytes: &[u8]) -> (r: Option<String>)
    ensures
        match r {
            Some(text) => json_says(bytes@) == Some(text@),
            None => json_says(bytes@) is None,
        },
{
    serde_json::from_slice::<String>(bytes).ok()
}

/// The counting number that `bytes` are in JSON; nothing where they are none, or
/// one of more than 64 bits.
pub uninterp spec fn json_counts(bytes: Seq<u8>) -> Option<u64>;

/// Calls `serde_json::from_slice` for a `u64`. The claim is that the outcome
/// depends on the bytes alone.
#[verifier::external_body]
fn number_of(bytes: &[u8]) -> (r: Option<u64>)
    ensures
        r == json_counts(bytes@),
{
    serde_json::from_slice::<u64>(bytes).ok()
}

/// One member of an object.
pub struct Member {
    /// Its name.
    pub name: String,
    /// Its value, as it is written.
    pub value: Vec<u8>,
}

/// What a member says.
#[verifier::ext_equal]
pub struct MemberView {
    /// Its name.
    pub name: Seq<char>,
    /// Its value, as it is written.
    pub value: Seq<u8>,
}

impl View for Member {
    type V = MemberView;

    open spec fn view(&self) -> MemberView {
        MemberView { name: self.name@, value: self.value@ }
    }
}

/// What a list of members says.
pub open spec fn members_view(members: Seq<Member>) -> Seq<MemberView> {
    Seq::new(members.len(), |i: int| members[i]@)
}

/// Whether a byte is white space in JSON.
pub open spec fn is_blank(byte: u8) -> bool {
    byte == SPACE || byte == TAB || byte == LINE_FEED || byte == CARRIAGE_RETURN
}

/// What is left of `bytes` without the white space they begin with.
pub open spec fn unpadded(bytes: Seq<u8>) -> Seq<u8>
    decreases bytes.len(),
{
    if bytes.len() > 0 && is_blank(bytes[0]) {
        unpadded(bytes.skip(1))
    } else {
        bytes
    }
}

/// Dropping white space makes nothing longer.
proof fn lemma_unpadded_is_no_longer(bytes: Seq<u8>)
    ensures
        unpadded(bytes).len() <= bytes.len(),
    decreases bytes.len(),
{
    if bytes.len() > 0 && is_blank(bytes[0]) {
        lemma_unpadded_is_no_longer(bytes.skip(1));
    }
}

/// The value that `bytes` begin with, and what stands behind it.
pub open spec fn first_value(bytes: Seq<u8>) -> Option<(Seq<u8>, Seq<u8>)> {
    match json_length(bytes) {
        Some(length) => if 0 < length <= bytes.len() {
            Some((bytes.take(length as int), unpadded(bytes.skip(length as int))))
        } else {
            None
        },
        None => None,
    }
}

/// The member that `bytes` begin with, and what stands behind it: a text, a
/// colon and a value.
pub open spec fn first_member(bytes: Seq<u8>) -> Option<(MemberView, Seq<u8>)> {
    match first_value(bytes) {
        Some((written, behind)) => match json_says(written) {
            Some(name) => if behind.len() > 0 && behind[0] == COLON {
                match first_value(behind.skip(1)) {
                    Some((value, rest)) => Some((MemberView { name, value }, rest)),
                    None => None,
                }
            } else {
                None
            },
            None => None,
        },
        None => None,
    }
}

/// What stands behind a member is shorter than what began with it.
#[via_fn]
proof fn lemma_list_gets_shorter(bytes: Seq<u8>)
{
    if let Some((_, behind)) = first_value(bytes) {
        lemma_unpadded_is_no_longer(bytes.skip(json_length(bytes)->0 as int));
        if behind.len() > 0 && first_value(behind.skip(1)) is Some {
            let rest = behind.skip(1);
            lemma_unpadded_is_no_longer(rest.skip(json_length(rest)->0 as int));
        }
    }
}

/// The members that `bytes` list, with commas between them and a closing brace
/// behind the last; nothing where they list none so.
pub open spec fn listed_members(bytes: Seq<u8>) -> Option<Seq<MemberView>>
    decreases bytes.len(),
    via lemma_list_gets_shorter
{
    match first_member(bytes) {
        Some((member, rest)) => if rest.len() > 0 && rest[0] == CLOSING_BRACE {
            Some(seq![member])
        } else if rest.len() > 0 && rest[0] == COMMA {
            match listed_members(rest.skip(1)) {
                Some(more) => Some(seq![member] + more),
                None => None,
            }
        } else {
            None
        },
        None => None,
    }
}

/// The members of the object that `bytes` begin with, in their order; nothing
/// where they begin with none. What stands behind the object is not looked at.
pub open spec fn members(bytes: Seq<u8>) -> Option<Seq<MemberView>> {
    let object = unpadded(bytes);
    if object.len() > 0 && object[0] == OPENING_BRACE {
        let inside = unpadded(object.skip(1));
        if inside.len() > 0 && inside[0] == CLOSING_BRACE {
            Some(Seq::empty())
        } else {
            listed_members(inside)
        }
    } else {
        None
    }
}

/// Drops the white space that `bytes` begin with.
fn skip_blank(bytes: &[u8]) -> (r: &[u8])
    ensures
        r@ == unpadded(bytes@),
        r@.len() <= bytes@.len(),
{
    let mut at: usize = 0;
    assert(bytes@.skip(0) =~= bytes@);
    while at < bytes.len() && (bytes[at] == SPACE || bytes[at] == TAB || bytes[at] == LINE_FEED
        || bytes[at] == CARRIAGE_RETURN)
        invariant
            at <= bytes@.len(),
            unpadded(bytes@) == unpadded(bytes@.skip(at as int)),
        decreases bytes@.len() - at,
    {
        assert(bytes@.skip(at as int)[0] == bytes@[at as int]);
        assert(bytes@.skip(at as int).skip(1) =~= bytes@.skip(at + 1));
        at = at + 1;
    }
    proof {
        let left = bytes@.skip(at as int);
        assert(left =~= bytes@.subrange(at as int, bytes@.len() as int));
        if left.len() > 0 {
            assert(left[0] == bytes@[at as int]);
        }
    }
    slice_subrange(bytes, at, bytes.len())
}

/// Parts the value that `bytes` begin with from what stands behind it.
fn split_value(bytes: &[u8]) -> (r: Option<(&[u8], &[u8])>)
    ensures
        match r {
            Some((value, behind)) => first_value(bytes@) == Some((value@, behind@)) && behind@.len()
                < bytes@.len(),
            None => first_value(bytes@) is None,
        },
{
    match value_length(bytes) {
        Some(length) => {
            let value = slice_subrange(bytes, 0, length);
            let behind = slice_subrange(bytes, length, bytes.len());
            assert(value@ =~= bytes@.take(length as int));
            assert(behind@ =~= bytes@.skip(length as int));
            Some((value, skip_blank(behind)))
        },
        None => None,
    }
}

/// Copies bytes.
fn copy_of(bytes: &[u8]) -> (r: Vec<u8>)
    ensures
        r@ == bytes@,
{
    let mut copy: Vec<u8> = Vec::new();
    let mut i: usize = 0;
    while i < bytes.len()
        invariant
            i <= bytes@.len(),
            copy@ =~= bytes@.take(i as int),
        decreases bytes@.len() - i,
    {
        copy.push(bytes[i]);
        i = i + 1;
    }
    assert(copy@ =~= bytes@);
    copy
}

/// Parts the member that `bytes` begin with from what stands behind it.
fn split_member(bytes: &[u8]) -> (r: Option<(Member, &[u8])>)
    ensures
        match r {
            Some((member, rest)) => first_member(bytes@) == Some((member@, rest@)) && rest@.len()
                < bytes@.len(),
            None => first_member(bytes@) is None,
        },
{
    let (written, behind) = match split_value(bytes) {
        Some(parts) => parts,
        None => {
            return None;
        },
    };
    let name = match text_of(written) {
        Some(name) => name,
        None => {
            return None;
        },
    };
    if behind.len() == 0 || behind[0] != COLON {
        return None;
    }
    let told = slice_subrange(behind, 1, behind.len());
    assert(told@ =~= behind@.skip(1));
    match split_value(told) {
        Some((value, rest)) => Some((Member { name, value: copy_of(value) }, rest)),
        None => None,
    }
}

/// Reads the members of the object that `bytes` begin with.
pub fn members_of(bytes: &[u8]) -> (r: Option<Vec<Member>>)
    ensures
        match r {
            Some(found) => members(bytes@) == Some(members_view(found@)),
            None => members(bytes@) is None,
        },
{
    let object = skip_blank(bytes);
    if object.len() == 0 || object[0] != OPENING_BRACE {
        return None;
    }
    let behind = slice_subrange(object, 1, object.len());
    assert(behind@ =~= object@.skip(1));
    let inside = skip_blank(behind);
    let mut found: Vec<Member> = Vec::new();
    if inside.len() > 0 && inside[0] == CLOSING_BRACE {
        assert(members_view(found@) =~= Seq::<MemberView>::empty());
        return Some(found);
    }
    let mut left = inside;
    assert(listed_members(inside@) matches Some(more) ==> members_view(found@) + more =~= more);
    loop
        invariant
            members(bytes@) == listed_members(inside@),
            match listed_members(left@) {
                Some(more) => listed_members(inside@) == Some(members_view(found@) + more),
                None => listed_members(inside@) is None,
            },
        decreases left@.len(),
    {
        let (member, rest) = match split_member(left) {
            Some(parts) => parts,
            None => {
                return None;
            },
        };
        let ghost before = members_view(found@);
        let ghost last = member@;
        found.push(member);
        assert(members_view(found@) =~= before + seq![last]);
        if rest.len() == 0 {
            return None;
        }
        if rest[0] == CLOSING_BRACE {
            return Some(found);
        }
        if rest[0] != COMMA {
            return None;
        }
        let next = slice_subrange(rest, 1, rest.len());
        proof {
            assert(next@ =~= rest@.skip(1));
            if let Some(more) = listed_members(next@) {
                assert(before + (seq![last] + more) =~= members_view(found@) + more);
            }
        }
        left = next;
    }
}

/// The value of the one member of that name; nothing where there is none, or
/// more than one.
pub open spec fn sole(members: Seq<MemberView>, name: Seq<char>) -> Option<Seq<u8>> {
    let named = members.filter(|member: MemberView| member.name == name);
    if named.len() == 1 {
        Some(named[0].value)
    } else {
        None
    }
}

/// What the one member of that name says, where that is a text.
pub open spec fn sole_text(members: Seq<MemberView>, name: Seq<char>) -> Option<Seq<char>> {
    match sole(members, name) {
        Some(value) => json_says(value),
        None => None,
    }
}

/// What the one member of that name counts, where that is a counting number.
pub open spec fn sole_number(members: Seq<MemberView>, name: Seq<char>) -> Option<u64> {
    match sole(members, name) {
        Some(value) => json_counts(value),
        None => None,
    }
}

/// Finds the one member of that name.
fn find_sole<'a>(members: &'a Vec<Member>, name: &str) -> (r: Option<&'a Member>)
    ensures
        match r {
            Some(member) => sole(members_view(members@), name@) == Some(member@.value),
            None => sole(members_view(members@), name@) is None,
        },
{
    let ghost all = members_view(members@);
    let ghost called = |member: MemberView| member.name == name@;
    let mut found: Option<&Member> = None;
    let mut repeated: bool = false;
    let mut i: usize = 0;
    proof {
        reveal(Seq::filter);
    }
    while i < members.len()
        invariant
            i <= members@.len(),
            all == members_view(members@),
            called == (|member: MemberView| member.name == name@),
            repeated <==> all.take(i as int).filter(called).len() > 1,
            !repeated ==> match found {
                Some(member) => all.take(i as int).filter(called) == seq![member@],
                None => all.take(i as int).filter(called).len() == 0,
            },
        decreases members@.len() - i,
    {
        let member = &members[i];
        proof {
            let shown = all.take(i + 1);
            assert(shown.drop_last() =~= all.take(i as int));
            assert(shown.last() == member@);
            assert(shown.filter(called) == if called(member@) {
                all.take(i as int).filter(called).push(member@)
            } else {
                all.take(i as int).filter(called)
            }) by {
                reveal(Seq::filter);
            }
        }
        if same_text(member.name.as_str(), name) {
            if found.is_some() {
                repeated = true;
            } else {
                assert(seq![member@] =~= Seq::empty().push(member@));
            }
            found = Some(member);
        }
        i = i + 1;
    }
    assert(all.take(i as int) =~= all);
    if repeated {
        None
    } else {
        found
    }
}

/// Reads the one member of that name as a text.
pub fn text_member(members: &Vec<Member>, name: &str) -> (r: Option<String>)
    ensures
        match r {
            Some(text) => sole_text(members_view(members@), name@) == Some(text@),
            None => sole_text(members_view(members@), name@) is None,
        },
{
    match find_sole(members, name) {
        Some(member) => text_of(member.value.as_slice()),
        None => None,
    }
}

/// Reads the one member of that name as a counting number.
pub fn number_member(members: &Vec<Member>, name: &str) -> (r: Option<u64>)
    ensures
        r == sole_number(members_view(members@), name@),
{
    match find_sole(members, name) {
        Some(member) => number_of(member.value.as_slice()),
        None => None,
    }
}

/// What is dropped before a value is white space alone, and what is left begins
/// with none.
proof fn lemma_unpadded(bytes: Seq<u8>)
    ensures
        unpadded(bytes).len() <= bytes.len(),
        bytes.skip(bytes.len() - unpadded(bytes).len()) == unpadded(bytes),
        forall|i: int|
            0 <= i < bytes.len() - unpadded(bytes).len() ==> is_blank(#[trigger] bytes[i]),
        unpadded(bytes).len() > 0 ==> !is_blank(unpadded(bytes)[0]),
    decreases bytes.len(),
{
    if bytes.len() > 0 && is_blank(bytes[0]) {
        let rest = bytes.skip(1);
        lemma_unpadded(rest);
        let left = unpadded(rest);
        assert(bytes.skip(bytes.len() - left.len()) =~= rest.skip(rest.len() - left.len()));
        assert forall|i: int| 0 <= i < bytes.len() - left.len() implies is_blank(
            #[trigger] bytes[i],
        ) by {
            if i > 0 {
                assert(rest[i - 1] == bytes[i]);
            }
        }
    } else {
        assert(bytes.skip(0) =~= bytes);
    }
}

/// White space in JSON is the space, the tab, the line feed and the carriage
/// return; that and nothing else is dropped before a value.
pub proof fn law_only_white_space_is_dropped(bytes: Seq<u8>, byte: u8)
    ensures
        is_blank(byte) <==> byte == 32 || byte == 9 || byte == 10 || byte == 13,
        unpadded(bytes).len() <= bytes.len(),
        bytes.skip(bytes.len() - unpadded(bytes).len()) == unpadded(bytes),
        forall|i: int|
            0 <= i < bytes.len() - unpadded(bytes).len() ==> is_blank(#[trigger] bytes[i]),
        unpadded(bytes).len() > 0 ==> !is_blank(unpadded(bytes)[0]),
{
    lemma_unpadded(bytes);
}

/// How the list of members is made up: a name, a colon and a value, and behind
/// them a closing brace that ends it, or a comma and the rest of the list. Every
/// member is listed, however many there are.
pub proof fn law_members_are_listed_one_by_one(
    bytes: Seq<u8>,
    written: Seq<u8>,
    name: Seq<char>,
    behind: Seq<u8>,
    value: Seq<u8>,
    rest: Seq<u8>,
)
    requires
        first_value(bytes) == Some((written, behind)),
        json_says(written) == Some(name),
        behind.len() > 0 && behind[0] == 58,
        first_value(behind.skip(1)) == Some((value, rest)),
    ensures
        rest.len() > 0 && rest[0] == 125 ==> listed_members(bytes) == Some(
            seq![MemberView { name, value }],
        ),
        rest.len() > 0 && rest[0] == 44 && listed_members(rest.skip(1)) is Some ==> listed_members(
            bytes,
        ) == Some(seq![MemberView { name, value }] + listed_members(rest.skip(1))->0),
        rest.len() > 0 && rest[0] == 44 && listed_members(rest.skip(1)) is None ==> listed_members(
            bytes,
        ) is None,
        rest.len() == 0 || (rest[0] != 44 && rest[0] != 125) ==> listed_members(bytes) is None,
{
}

/// The value that bytes begin with is as much of them as the JSON library reads;
/// what stands behind it follows after white space alone.
pub proof fn law_a_value_is_what_the_library_reads(bytes: Seq<u8>, length: usize)
    requires
        json_length(bytes) == Some(length),
        0 < length <= bytes.len(),
    ensures
        first_value(bytes) == Some(
            (bytes.subrange(0, length as int), unpadded(bytes.skip(length as int))),
        ),
{
    assert(bytes.subrange(0, length as int) =~= bytes.take(length as int));
}

/// The members of an object are those listed behind its opening brace; only one
/// that closes at once has none, and what does not open has nothing to list.
pub proof fn law_an_object_lists_its_members(bytes: Seq<u8>)
    ensures
        unpadded(bytes).len() == 0 || unpadded(bytes)[0] != 123 ==> members(bytes) is None,
        unpadded(bytes).len() > 0 && unpadded(bytes)[0] == 123 ==> {
            let inside = unpadded(unpadded(bytes).skip(1));
            &&& inside.len() > 0 && inside[0] == 125 ==> members(bytes) == Some(
                Seq::<MemberView>::empty(),
            )
            &&& inside.len() == 0 || inside[0] != 125 ==> members(bytes) == listed_members(inside)
        },
{
}

/// What a filter keeps, by position.
proof fn lemma_named_once(members: Seq<MemberView>, name: Seq<char>)
    ensures
        ({
            let named = members.filter(|member: MemberView| member.name == name);
            &&& named.len() == 0 <==> (forall|i: int|
                0 <= i < members.len() ==> (#[trigger] members[i]).name != name)
            &&& named.len() == 1 ==> exists|i: int|
                {
                    &&& 0 <= i < members.len()
                    &&& #[trigger] members[i] == named[0]
                    &&& members[i].name == name
                    &&& forall|j: int|
                        0 <= j < members.len() && j != i ==> (#[trigger] members[j]).name != name
                }
            &&& named.len() > 1 ==> exists|i: int, j: int|
                0 <= i < j < members.len() && (#[trigger] members[i]).name == name && (
                #[trigger] members[j]).name == name
        }),
    decreases members.len(),
{
    let called = |member: MemberView| member.name == name;
    let named = members.filter(called);
    reveal(Seq::filter);
    if members.len() > 0 {
        let fewer = members.drop_last();
        let last = members.len() - 1;
        let before = fewer.filter(called);
        lemma_named_once(fewer, name);
        assert(members[last] == members.last());
        assert forall|i: int| 0 <= i < last implies #[trigger] fewer[i] == members[i] by {}
        if members.last().name == name {
            assert(named =~= before.push(members.last()));
            assert(members[last].name == name);
            if before.len() == 0 {
                assert(members[last] == named[0]);
                assert forall|j: int| 0 <= j < members.len() && j != last implies (
                #[trigger] members[j]).name != name by {
                    assert(fewer[j].name != name);
                }
            } else {
                assert(exists|i: int| 0 <= i < fewer.len() && (#[trigger] fewer[i]).name == name);
                let i = choose|i: int| 0 <= i < fewer.len() && (#[trigger] fewer[i]).name == name;
                assert(members[i].name == name);
            }
        } else {
            assert(named == before);
            if before.len() == 0 {
                assert forall|i: int| 0 <= i < members.len() implies (#[trigger] members[i]).name
                    != name by {
                    if i < last {
                        assert(fewer[i].name != name);
                    }
                }
            } else if before.len() == 1 {
                let i = choose|i: int|
                    {
                        &&& 0 <= i < fewer.len()
                        &&& #[trigger] fewer[i] == before[0]
                        &&& fewer[i].name == name
                        &&& forall|j: int|
                            0 <= j < fewer.len() && j != i ==> (#[trigger] fewer[j]).name != name
                    };
                assert(members[i] == named[0]);
                assert forall|j: int| 0 <= j < members.len() && j != i implies (
                #[trigger] members[j]).name != name by {
                    if j < last {
                        assert(fewer[j].name != name);
                    }
                }
            } else {
                let (i, j) = choose|i: int, j: int|
                    0 <= i < j < fewer.len() && (#[trigger] fewer[i]).name == name && (
                    #[trigger] fewer[j]).name == name;
                assert(members[i].name == name && members[j].name == name);
            }
        }
    }
}

/// A member counts exactly where no other has its name: then its value is the
/// value of that name, and a name that no member has, or more than one, has none.
pub proof fn law_a_name_counts_once(members: Seq<MemberView>, name: Seq<char>, at: int)
    requires
        0 <= at < members.len(),
        members[at].name == name,
    ensures
        (forall|j: int|
            0 <= j < members.len() && j != at ==> (#[trigger] members[j]).name != name) ==> sole(
            members,
            name,
        ) == Some(members[at].value),
        (exists|j: int|
            0 <= j < members.len() && j != at && (#[trigger] members[j]).name == name) ==> sole(
            members,
            name,
        ) is None,
        sole_text(members, name) == if sole(members, name) is Some {
            json_says(members[at].value)
        } else {
            None
        },
        sole_number(members, name) == if sole(members, name) is Some {
            json_counts(members[at].value)
        } else {
            None
        },
{
    lemma_named_once(members, name);
    let named = members.filter(|member: MemberView| member.name == name);
    if named.len() == 1 {
        let i = choose|i: int|
            {
                &&& 0 <= i < members.len()
                &&& #[trigger] members[i] == named[0]
                &&& members[i].name == name
                &&& forall|j: int|
                    0 <= j < members.len() && j != i ==> (#[trigger] members[j]).name != name
            };
        assert(i == at);
    }
    if named.len() > 1 {
        let (i, j) = choose|i: int, j: int|
            0 <= i < j < members.len() && (#[trigger] members[i]).name == name && (
            #[trigger] members[j]).name == name;
        assert(i != at || j != at);
    }
}

/// Members are seen whole: every one of them, in its place.
pub proof fn law_members_are_seen_whole(members: Seq<Member>, at: int)
    ensures
        members_view(members).len() == members.len(),
        0 <= at < members.len() ==> members_view(members)[at].name == members[at].name@
            && members_view(members)[at].value == members[at].value@,
{
}

} // verus!
