//! How the JSON that is sent reads: a text is taken apart here by the rules of
//! JSON alone, apart from how it was put together.

use crate::common::json::{json_character, json_characters, json_string};
use crate::common::text::{decimal, is_digit, lemma_decimal};
use vstd::prelude::*;

verus! {

/// Where a reader of JSON stands: how many brackets are open, and whether it is
/// inside a string, right behind a backslash there.
#[verifier::ext_equal]
pub struct Place {
    /// Open brackets and braces.
    pub depth: int,
    /// Whether a string is open.
    pub quoted: bool,
    /// Whether a backslash stands right before.
    pub escaped: bool,
}

/// Where a reader starts.
pub open spec fn outside() -> Place {
    Place { depth: 0, quoted: false, escaped: false }
}

/// Where a reader stands behind one more character.
pub open spec fn past(at: Place, c: char) -> Place {
    if at.escaped {
        Place { escaped: false, ..at }
    } else if at.quoted {
        if c == '\\' {
            Place { escaped: true, ..at }
        } else if c == '"' {
            Place { quoted: false, ..at }
        } else {
            at
        }
    } else if c == '"' {
        Place { quoted: true, ..at }
    } else if c == '{' || c == '[' {
        Place { depth: at.depth + 1, ..at }
    } else if c == '}' || c == ']' {
        Place { depth: at.depth - 1, ..at }
    } else {
        at
    }
}

/// Where a reader stands behind a text.
pub open spec fn read_on(at: Place, text: Seq<char>) -> Place
    decreases text.len(),
{
    if text.len() == 0 {
        at
    } else {
        past(read_on(at, text.drop_last()), text.last())
    }
}

/// The parts of a text between its commas, but for those inside strings and
/// brackets: the items of an array, or the members of an object.
pub open spec fn parts(text: Seq<char>) -> Seq<Seq<char>>
    decreases text.len(),
{
    if text.len() == 0 {
        seq![Seq::empty()]
    } else {
        let before = parts(text.drop_last());
        if text.last() == ',' && read_on(outside(), text.drop_last()) == outside() {
            before.push(Seq::empty())
        } else {
            before.update(before.len() - 1, before.last().push(text.last()))
        }
    }
}

/// A member of an object: a name in quotes, a colon and a value.
pub open spec fn member(name: Seq<char>, value: Seq<char>) -> Seq<char> {
    seq!['"'] + name + seq!['"', ':'] + value
}

/// The members of the object that a text is, in their order.
pub open spec fn members_read(text: Seq<char>) -> Option<Seq<Seq<char>>> {
    if text.len() >= 2 && text[0] == '{' && text.last() == '}' {
        Some(parts(text.subrange(1, text.len() - 1)))
    } else {
        None
    }
}

/// The items of the array that a text is, in their order.
pub open spec fn items_read(text: Seq<char>) -> Option<Seq<Seq<char>>> {
    if text.len() >= 2 && text[0] == '[' && text.last() == ']' {
        Some(parts(text.subrange(1, text.len() - 1)))
    } else {
        None
    }
}

/// Whether a text leaves a reader where it stood, and has no comma for it that
/// parts anything.
pub open spec fn is_whole(at: Place, text: Seq<char>) -> bool {
    &&& read_on(at, text) == at
    &&& forall|k: int|
        0 <= k < text.len() && #[trigger] text[k] == ',' ==> read_on(at, text.take(k)) != outside()
}

/// Reading two texts is reading one and then the other.
proof fn lemma_read_on(at: Place, a: Seq<char>, b: Seq<char>)
    ensures
        read_on(at, a + b) == read_on(read_on(at, a), b),
    decreases b.len(),
{
    if b.len() == 0 {
        assert(a + b =~= a);
    } else {
        assert((a + b).drop_last() =~= a + b.drop_last());
        lemma_read_on(at, a, b.drop_last());
    }
}

/// Two whole texts make a whole one.
proof fn lemma_whole_together(at: Place, a: Seq<char>, b: Seq<char>)
    requires
        is_whole(at, a),
        is_whole(at, b),
    ensures
        is_whole(at, a + b),
{
    lemma_read_on(at, a, b);
    let both = a + b;
    assert forall|k: int| 0 <= k < both.len() && #[trigger] both[k] == ',' implies read_on(
        at,
        both.take(k),
    ) != outside() by {
        if k < a.len() {
            assert(a[k] == ',');
            assert(both.take(k) =~= a.take(k));
        } else {
            assert(b[k - a.len()] == ',');
            assert(both.take(k) =~= a + b.take(k - a.len()));
            lemma_read_on(at, a, b.take(k - a.len()));
        }
    }
}

/// One character that is no quote, bracket or comma is whole; within brackets a
/// comma is, too.
proof fn lemma_character_is_whole(at: Place, c: char)
    requires
        !at.quoted && !at.escaped,
        c != '"' && c != '{' && c != '}' && c != '[' && c != ']',
        c == ',' ==> at.depth != 0,
    ensures
        is_whole(at, seq![c]),
{
    let one = seq![c];
    assert(one.drop_last() =~= Seq::<char>::empty());
    assert(read_on(at, one.drop_last()) == at);
    assert forall|k: int| 0 <= k < one.len() && #[trigger] one[k] == ',' implies read_on(
        at,
        one.take(k),
    ) != outside() by {
        assert(one.take(k) =~= Seq::<char>::empty());
    }
}

/// Inside a string, a reader stays inside over characters that end none.
proof fn lemma_inside(at: Place, text: Seq<char>)
    requires
        at.quoted && !at.escaped,
        forall|i: int| 0 <= i < text.len() ==> #[trigger] text[i] != '"' && text[i] != '\\',
    ensures
        read_on(at, text) == at,
    decreases text.len(),
{
    if text.len() > 0 {
        assert(text.last() == text[text.len() - 1]);
        lemma_inside(at, text.drop_last());
    }
}

/// A string is whole, wherever it stands, if what is between its quotes keeps a
/// reader inside it all the way.
proof fn lemma_quoted_is_whole(at: Place, inner: Seq<char>)
    requires
        !at.quoted && !at.escaped,
        read_on(Place { quoted: true, ..at }, inner) == (Place { quoted: true, ..at }),
        forall|k: int|
            0 <= k <= inner.len() ==> (#[trigger] read_on(
                Place { quoted: true, ..at },
                inner.take(k),
            )).quoted,
    ensures
        is_whole(at, seq!['"'] + inner + seq!['"']),
{
    let open = seq!['"'];
    let text = open + inner + seq!['"'];
    let within = Place { quoted: true, ..at };
    assert(open.drop_last() =~= Seq::<char>::empty());
    assert(read_on(at, open.drop_last()) == at);
    assert(read_on(at, open) == within);
    assert(text.drop_last() =~= open + inner);
    lemma_read_on(at, open, inner);
    assert forall|k: int| 0 <= k < text.len() && #[trigger] text[k] == ',' implies read_on(
        at,
        text.take(k),
    ) != outside() by {
        assert(1 <= k <= inner.len());
        assert(text.take(k) =~= open + inner.take(k - 1));
        lemma_read_on(at, open, inner.take(k - 1));
        assert(read_on(within, inner.take(k - 1)).quoted);
    }
}

/// Inside a string, escaped text keeps a reader inside.
proof fn lemma_escapes_stay_inside(at: Place, text: Seq<char>)
    requires
        at.quoted && !at.escaped,
    ensures
        read_on(at, json_characters(text)) == at,
        forall|k: int|
            0 <= k <= json_characters(text).len() ==> (#[trigger] read_on(
                at,
                json_characters(text).take(k),
            )).quoted,
    decreases text.len(),
{
    let all = json_characters(text);
    if text.len() == 0 {
        assert(all.take(0) =~= Seq::<char>::empty());
    } else {
        let first = json_characters(text.drop_last());
        let last = json_character(text.last());
        lemma_escapes_stay_inside(at, text.drop_last());
        lemma_character_stays_inside(at, text.last());
        lemma_read_on(at, first, last);
        assert forall|k: int| 0 <= k <= all.len() implies (#[trigger] read_on(
            at,
            all.take(k),
        )).quoted by {
            if k <= first.len() {
                assert(all.take(k) =~= first.take(k));
                assert(read_on(at, first.take(k)).quoted);
            } else {
                assert(all.take(k) =~= first + last.take(k - first.len()));
                lemma_read_on(at, first, last.take(k - first.len()));
                assert(read_on(at, last.take(k - first.len())).quoted);
            }
        }
    }
}

/// Inside a string, one escaped character keeps a reader inside.
proof fn lemma_character_stays_inside(at: Place, c: char)
    requires
        at.quoted && !at.escaped,
    ensures
        read_on(at, json_character(c)) == at,
        forall|k: int|
            0 <= k <= json_character(c).len() ==> (#[trigger] read_on(
                at,
                json_character(c).take(k),
            )).quoted,
{
    let text = json_character(c);
    reveal_with_fuel(read_on, 7);
    assert(text.take(0) =~= Seq::<char>::empty());
    if text.len() == 1 {
        assert(text.drop_last() =~= Seq::<char>::empty());
        assert(text.take(1) =~= text);
    } else {
        assert(text[0] == '\\');
        let first = text.take(1);
        assert(first.drop_last() =~= Seq::<char>::empty());
        let second = text.take(2);
        assert(second.drop_last() =~= first);
        assert(read_on(at, second) == at);
        if text.len() == 2 {
            assert(second =~= text);
        } else {
            let rest = text.skip(2);
            assert(text =~= second + rest);
            assert forall|i: int| 0 <= i < rest.len() implies #[trigger] rest[i] != '"' && rest[i]
                != '\\' by {}
            lemma_read_on(at, second, rest);
            lemma_inside(at, rest);
            assert forall|k: int| 2 < k <= text.len() implies (#[trigger] read_on(
                at,
                text.take(k),
            )).quoted by {
                assert(text.take(k) =~= second + rest.take(k - 2));
                lemma_read_on(at, second, rest.take(k - 2));
                lemma_inside(at, rest.take(k - 2));
            }
        }
    }
}

/// A string of JSON is whole, whatever it says.
pub proof fn lemma_string_is_whole(at: Place, text: Seq<char>)
    requires
        !at.quoted && !at.escaped,
    ensures
        is_whole(at, json_string(text)),
{
    lemma_escapes_stay_inside(Place { quoted: true, ..at }, text);
    lemma_quoted_is_whole(at, json_characters(text));
}

/// A number is whole.
pub proof fn lemma_number_is_whole(at: Place, n: u64)
    requires
        !at.quoted && !at.escaped,
    ensures
        is_whole(at, decimal(n as nat)),
{
    lemma_decimal(n as nat);
    lemma_digits_are_whole(at, decimal(n as nat));
}

/// A run of digits is whole.
proof fn lemma_digits_are_whole(at: Place, text: Seq<char>)
    requires
        !at.quoted && !at.escaped,
        forall|i: int| 0 <= i < text.len() ==> is_digit(#[trigger] text[i]),
    ensures
        is_whole(at, text),
    decreases text.len(),
{
    if text.len() > 0 {
        let before = text.drop_last();
        assert forall|i: int| 0 <= i < before.len() implies is_digit(#[trigger] before[i]) by {
            assert(is_digit(text[i]));
        }
        assert(is_digit(text[text.len() - 1]));
        lemma_digits_are_whole(at, before);
        lemma_character_is_whole(at, text.last());
        lemma_whole_together(at, before, seq![text.last()]);
        assert(text =~= before + seq![text.last()]);
    }
}

/// A member is whole where its value is, and its name is plain.
pub proof fn lemma_member_is_whole(at: Place, name: Seq<char>, value: Seq<char>)
    requires
        !at.quoted && !at.escaped,
        forall|i: int| 0 <= i < name.len() ==> #[trigger] name[i] != '"' && name[i] != '\\',
        is_whole(at, value),
    ensures
        is_whole(at, member(name, value)),
{
    let within = Place { quoted: true, ..at };
    lemma_inside(within, name);
    assert forall|k: int| 0 <= k <= name.len() implies (#[trigger] read_on(
        within,
        name.take(k),
    )).quoted by {
        lemma_inside(within, name.take(k));
    }
    lemma_quoted_is_whole(at, name);
    let quoted = seq!['"'] + name + seq!['"'];
    lemma_character_is_whole(at, ':');
    lemma_whole_together(at, quoted, seq![':']);
    lemma_whole_together(at, quoted + seq![':'], value);
    assert(member(name, value) =~= quoted + seq![':'] + value);
}

/// A whole text behind others adds itself to the last part.
proof fn lemma_parts_grow(before: Seq<char>, text: Seq<char>)
    requires
        forall|k: int|
            0 <= k < text.len() && #[trigger] text[k] == ',' ==> read_on(
                read_on(outside(), before),
                text.take(k),
            ) != outside(),
    ensures
        parts(before).len() > 0,
        parts(before + text) == parts(before).update(
            parts(before).len() - 1,
            parts(before).last() + text,
        ),
    decreases text.len(),
{
    lemma_parts_are_some(before);
    let known = parts(before);
    if text.len() == 0 {
        assert(before + text =~= before);
        assert(known.last() + text =~= known.last());
        assert(known.update(known.len() - 1, known.last()) =~= known);
    } else {
        let shorter = text.drop_last();
        assert forall|k: int| 0 <= k < shorter.len() && #[trigger] shorter[k]
            == ',' implies read_on(read_on(outside(), before), shorter.take(k)) != outside() by {
            assert(text[k] == ',');
            assert(shorter.take(k) =~= text.take(k));
        }
        lemma_parts_grow(before, shorter);
        let all = before + text;
        assert(all.drop_last() =~= before + shorter);
        lemma_read_on(outside(), before, shorter);
        assert(text.take(text.len() - 1) =~= shorter);
        assert(text[text.len() - 1] == text.last());
        assert((known.last() + shorter).push(text.last()) =~= known.last() + text);
        assert(parts(all) =~= known.update(known.len() - 1, known.last() + text));
    }
}

/// There is always a part.
proof fn lemma_parts_are_some(text: Seq<char>)
    ensures
        parts(text).len() > 0,
    decreases text.len(),
{
    if text.len() > 0 {
        lemma_parts_are_some(text.drop_last());
    }
}

/// A whole text is one part.
pub proof fn lemma_whole_is_one_part(text: Seq<char>)
    requires
        is_whole(outside(), text),
    ensures
        parts(text) == seq![text],
{
    let none = Seq::<char>::empty();
    lemma_parts_grow(none, text);
    assert(none + text =~= text);
    assert(parts(none) =~= seq![none]);
    assert(parts(text) =~= seq![text]);
}

/// A comma between whole texts parts them.
pub proof fn lemma_comma_parts(before: Seq<char>, text: Seq<char>)
    requires
        read_on(outside(), before) == outside(),
        is_whole(outside(), text),
    ensures
        parts(before + seq![','] + text) == parts(before).push(text),
        read_on(outside(), before + seq![','] + text) == outside(),
{
    let comma = before + seq![','];
    assert(comma.drop_last() =~= before);
    assert(read_on(outside(), comma) == outside());
    lemma_parts_grow(comma, text);
    lemma_read_on(outside(), comma, text);
    assert(Seq::<char>::empty() + text =~= text);
    assert(parts(comma + text) =~= parts(before).push(text));
}

/// Members with commas between them, in braces, are whole: what is inside braces
/// parts nothing outside.
pub proof fn lemma_braced_is_whole(inner: Seq<char>)
    requires
        is_whole(Place { depth: 1, ..outside() }, inner),
    ensures
        is_whole(outside(), seq!['{'] + inner + seq!['}']),
{
    let open = seq!['{'];
    let text = open + inner + seq!['}'];
    let within = Place { depth: 1, ..outside() };
    assert(open.drop_last() =~= Seq::<char>::empty());
    assert(read_on(outside(), open.drop_last()) == outside());
    assert(read_on(outside(), open) == within);
    assert(text.drop_last() =~= open + inner);
    lemma_read_on(outside(), open, inner);
    assert forall|k: int| 0 <= k < text.len() && #[trigger] text[k] == ',' implies read_on(
        outside(),
        text.take(k),
    ) != outside() by {
        assert(1 <= k <= inner.len());
        assert(inner[k - 1] == ',');
        assert(text.take(k) =~= open + inner.take(k - 1));
        lemma_read_on(outside(), open, inner.take(k - 1));
    }
}

/// A text with braces round it is read as an object.
pub proof fn lemma_object_is_read(inner: Seq<char>)
    ensures
        members_read(seq!['{'] + inner + seq!['}']) == Some(parts(inner)),
{
    let text = seq!['{'] + inner + seq!['}'];
    assert(text.subrange(1, text.len() - 1) =~= inner);
}

/// Where a reader stands inside the braces of an object.
pub open spec fn inside() -> Place {
    Place { depth: 1, ..outside() }
}

/// A list of members so far: read apart it gives `read`, and inside braces it
/// parts nothing.
pub open spec fn is_member_list(text: Seq<char>, read: Seq<Seq<char>>) -> bool {
    &&& parts(text) == read
    &&& read_on(outside(), text) == outside()
    &&& is_whole(inside(), text)
}

/// One member is a list of members.
pub proof fn lemma_first_member_listed(name: Seq<char>, value: Seq<char>)
    requires
        forall|i: int| 0 <= i < name.len() ==> #[trigger] name[i] != '"' && name[i] != '\\',
        is_whole(outside(), value),
        is_whole(inside(), value),
    ensures
        is_member_list(member(name, value), seq![member(name, value)]),
{
    lemma_member_is_whole(outside(), name, value);
    lemma_member_is_whole(inside(), name, value);
    lemma_whole_is_one_part(member(name, value));
}

/// One more member behind a comma is one more member of the list.
pub proof fn lemma_next_member_listed(
    text: Seq<char>,
    read: Seq<Seq<char>>,
    name: Seq<char>,
    value: Seq<char>,
)
    requires
        is_member_list(text, read),
        forall|i: int| 0 <= i < name.len() ==> #[trigger] name[i] != '"' && name[i] != '\\',
        is_whole(outside(), value),
        is_whole(inside(), value),
    ensures
        is_member_list(
            text + seq![','] + member(name, value),
            read.push(member(name, value)),
        ),
{
    lemma_member_is_whole(outside(), name, value);
    lemma_member_is_whole(inside(), name, value);
    lemma_comma_parts(text, member(name, value));
    lemma_character_is_whole(inside(), ',');
    lemma_whole_together(inside(), text, seq![',']);
    lemma_whole_together(inside(), text + seq![','], member(name, value));
}

/// Strings and numbers are whole, inside braces and outside.
pub proof fn lemma_values_are_whole(text: Seq<char>, n: u64)
    ensures
        is_whole(outside(), json_string(text)),
        is_whole(inside(), json_string(text)),
        is_whole(outside(), decimal(n as nat)),
        is_whole(inside(), decimal(n as nat)),
{
    lemma_string_is_whole(outside(), text);
    lemma_string_is_whole(inside(), text);
    lemma_number_is_whole(outside(), n);
    lemma_number_is_whole(inside(), n);
}

} // verus!
