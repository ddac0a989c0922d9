//! Text handling over Unicode scalar values.

use vstd::prelude::*;

verus! {

/// Appends one character, as `String::push` documents.
pub assume_specification[ String::push ](s: &mut String, ch: char)
    ensures
        final(s)@ == old(s)@.push(ch),
;

/// The characters that carry the Unicode `White_Space` property.
pub open spec fn is_space(c: char) -> bool {
    ||| '\u{9}' <= c <= '\u{d}'
    ||| c == ' '
    ||| c == '\u{85}'
    ||| c == '\u{a0}'
    ||| c == '\u{1680}'
    ||| '\u{2000}' <= c <= '\u{200a}'
    ||| c == '\u{2028}'
    ||| c == '\u{2029}'
    ||| c == '\u{202f}'
    ||| c == '\u{205f}'
    ||| c == '\u{3000}'
}

/// Whether `c` is white space.
pub fn space(c: char) -> (r: bool)
    ensures
        r == is_space(c),
{
    ('\u{9}' <= c && c <= '\u{d}') || c == ' ' || c == '\u{85}' || c == '\u{a0}' || c == '\u{1680}'
        || ('\u{2000}' <= c && c <= '\u{200a}') || c == '\u{2028}' || c == '\u{2029}'
        || c == '\u{202f}' || c == '\u{205f}' || c == '\u{3000}'
}

/// The characters of `s`, in order.
pub fn characters(s: &str) -> (r: Vec<char>)
    ensures
        r@ == s@,
{
    let mut r: Vec<char> = Vec::new();
    for c in it: s.chars()
        invariant
            it.seq() == s@,
            r@ == s@.take(it.index()),
    {
        r.push(c);
    }
    assert(s@.take(s@.len() as int) =~= s@);
    r
}

/// The string made of `chars[from..to]`.
pub fn text_between(chars: &Vec<char>, from: usize, to: usize) -> (r: String)
    requires
        from <= to <= chars.len(),
    ensures
        r@ == chars@.subrange(from as int, to as int),
{
    let mut r: String = String::new();
    let mut i: usize = from;
    while i < to
        invariant
            from <= i <= to <= chars.len(),
            r@ == chars@.subrange(from as int, i as int),
        decreases to - i,
    {
        r.push(chars[i]);
        i = i + 1;
        assert(chars@.subrange(from as int, i as int) =~= chars@.subrange(
            from as int,
            i - 1,
        ).push(chars@[i - 1]));
    }
    r
}

/// The position of the first `c` in `s` at or after `from`, or the length of
/// `s` where there is none.
pub open spec fn find(s: Seq<char>, c: char, from: int) -> int
    decreases s.len() - from,
{
    if from >= s.len() {
        s.len() as int
    } else if s[from] == c {
        from
    } else {
        find(s, c, from + 1)
    }
}

/// Where the first `c` at or after `from` stands.
pub fn position(chars: &Vec<char>, c: char, from: usize) -> (r: usize)
    requires
        from <= chars.len(),
    ensures
        r == find(chars@, c, from as int),
        from <= r <= chars.len(),
{
    let mut i: usize = from;
    while i < chars.len() && chars[i] != c
        invariant
            from <= i <= chars.len(),
            find(chars@, c, from as int) == find(chars@, c, i as int),
        decreases chars.len() - i,
    {
        i = i + 1;
    }
    i
}

/// `find` stays within the text, and what it skips does not hold `c`.
pub proof fn lemma_find(s: Seq<char>, c: char, from: int)
    requires
        0 <= from <= s.len(),
    ensures
        from <= find(s, c, from) <= s.len(),
        find(s, c, from) < s.len() ==> s[find(s, c, from)] == c,
        forall|i: int| from <= i < find(s, c, from) ==> s[i] != c,
    decreases s.len() - from,
{
    if from < s.len() && s[from] != c {
        lemma_find(s, c, from + 1);
    }
}

/// The two sides of the first `c` in `s`, if there is one.
pub open spec fn split_at_first(s: Seq<char>, c: char) -> Option<(Seq<char>, Seq<char>)> {
    let i = find(s, c, 0);
    if i < s.len() {
        Some((s.take(i), s.skip(i + 1)))
    } else {
        None
    }
}

/// Splits a text at its first `c`, if there is one.
pub fn split_once(text: &str, c: char) -> (r: Option<(String, String)>)
    ensures
        match r {
            Some((left, right)) => split_at_first(text@, c) == Some((left@, right@)),
            None => split_at_first(text@, c) is None,
        },
{
    let chars = characters(text);
    let i: usize = position(&chars, c, 0);
    if i < chars.len() {
        let left = text_between(&chars, 0, i);
        let right = text_between(&chars, i + 1, chars.len());
        assert(left@ =~= text@.take(i as int));
        assert(right@ =~= text@.skip(i + 1));
        Some((left, right))
    } else {
        None
    }
}

/// Which characters are stripped from the ends of a text.
#[derive(Clone, Copy, PartialEq, Eq, Structural)]
pub enum Edge {
    /// White space.
    Space,
    /// Double quotes.
    Quote,
}

impl Edge {
    /// Whether this edge strips `c`.
    pub open spec fn strips(self, c: char) -> bool {
        match self {
            Edge::Space => is_space(c),
            Edge::Quote => c == '"',
        }
    }

    /// Whether this edge strips `c`.
    pub fn stripping(self, c: char) -> (r: bool)
        ensures
            r == self.strips(c),
    {
        match self {
            Edge::Space => space(c),
            Edge::Quote => c == '"',
        }
    }
}

/// `s` without the leading characters that `edge` strips.
pub open spec fn strip_start(s: Seq<char>, edge: Edge) -> Seq<char>
    decreases s.len(),
{
    if s.len() > 0 && edge.strips(s[0]) {
        strip_start(s.skip(1), edge)
    } else {
        s
    }
}

/// `s` without the trailing characters that `edge` strips.
pub open spec fn strip_end(s: Seq<char>, edge: Edge) -> Seq<char>
    decreases s.len(),
{
    if s.len() > 0 && edge.strips(s.last()) {
        strip_end(s.drop_last(), edge)
    } else {
        s
    }
}

/// `s` stripped at both ends.
pub open spec fn stripped(s: Seq<char>, edge: Edge) -> Seq<char> {
    strip_end(strip_start(s, edge), edge)
}

/// `s` without leading and trailing white space.
pub open spec fn trimmed(s: Seq<char>) -> Seq<char> {
    stripped(s, Edge::Space)
}

/// A text that begins and ends with something `edge` keeps is left alone.
pub proof fn lemma_stripped_keeps(s: Seq<char>, edge: Edge)
    requires
        s.len() > 0 ==> !edge.strips(s[0]) && !edge.strips(s.last()),
    ensures
        stripped(s, edge) == s,
{
}

/// Nothing is left of a text exactly when every character of it is stripped.
pub proof fn lemma_stripped_empty(s: Seq<char>, edge: Edge)
    ensures
        stripped(s, edge).len() == 0 <==> (forall|i: int| 0 <= i < s.len() ==> edge.strips(s[i])),
    decreases s.len(),
{
    if s.len() > 0 {
        if edge.strips(s[0]) {
            lemma_stripped_empty(s.skip(1), edge);
            assert forall|i: int| 0 <= i < s.len() && (forall|j: int|
                0 <= j < s.skip(1).len() ==> edge.strips(s.skip(1)[j])) implies edge.strips(
                s[i],
            ) by {
                if i > 0 {
                    assert(s.skip(1)[i - 1] == s[i]);
                }
            }
        } else {
            lemma_strip_end_keeps_first(s, edge);
        }
    }
}

/// Stripping the end of a text never reaches a first character that is kept.
proof fn lemma_strip_end_keeps_first(s: Seq<char>, edge: Edge)
    requires
        s.len() > 0,
        !edge.strips(s[0]),
    ensures
        strip_end(s, edge).len() > 0,
        strip_end(s, edge)[0] == s[0],
    decreases s.len(),
{
    if edge.strips(s.last()) {
        assert(s.len() > 1);
        lemma_strip_end_keeps_first(s.drop_last(), edge);
    }
}

/// Where the text left after stripping `chars[from..to]` begins and ends.
pub fn strip_range(chars: &Vec<char>, from: usize, to: usize, edge: Edge) -> (r: (usize, usize))
    requires
        from <= to <= chars.len(),
    ensures
        from <= r.0 <= r.1 <= to,
        chars@.subrange(r.0 as int, r.1 as int) == stripped(
            chars@.subrange(from as int, to as int),
            edge,
        ),
{
    let ghost whole = chars@.subrange(from as int, to as int);
    let mut start: usize = from;
    while start < to && edge.stripping(chars[start])
        invariant
            from <= start <= to <= chars.len(),
            strip_start(whole, edge) == strip_start(
                chars@.subrange(start as int, to as int),
                edge,
            ),
        decreases to - start,
    {
        assert(chars@.subrange(start as int, to as int).skip(1) =~= chars@.subrange(
            start + 1,
            to as int,
        ));
        start = start + 1;
    }
    let ghost rest = chars@.subrange(start as int, to as int);
    assert(strip_start(whole, edge) == rest);
    let mut end: usize = to;
    while start < end && edge.stripping(chars[end - 1])
        invariant
            from <= start <= end <= to <= chars.len(),
            strip_end(rest, edge) == strip_end(chars@.subrange(start as int, end as int), edge),
        decreases end,
    {
        assert(chars@.subrange(start as int, end as int).drop_last() =~= chars@.subrange(
            start as int,
            end - 1,
        ));
        end = end - 1;
    }
    (start, end)
}

/// `s` without leading and trailing white space.
pub fn trim(s: &str) -> (r: String)
    ensures
        r@ == trimmed(s@),
{
    let chars = characters(s);
    assert(chars@.subrange(0, chars@.len() as int) =~= chars@);
    let (from, to) = strip_range(&chars, 0, chars.len(), Edge::Space);
    text_between(&chars, from, to)
}

/// The lower-case form of an ASCII letter; every other character is itself.
pub open spec fn ascii_lower(c: char) -> char {
    if 'A' <= c <= 'Z' {
        (c as u32 + 32) as char
    } else {
        c
    }
}

/// Whether two texts agree up to the case of their ASCII letters.
pub open spec fn same_ignoring_case(a: Seq<char>, b: Seq<char>) -> bool {
    &&& a.len() == b.len()
    &&& forall|i: int| 0 <= i < a.len() ==> ascii_lower(#[trigger] a[i]) == ascii_lower(b[i])
}

/// The lower-case form of an ASCII letter; every other character is itself.
fn lower(c: char) -> (r: char)
    ensures
        r == ascii_lower(c),
{
    if 'A' <= c && c <= 'Z' {
        (c as u8 + 32) as char
    } else {
        c
    }
}

/// Whether two texts agree up to the case of their ASCII letters.
pub fn same_text_ignoring_case(a: &str, b: &str) -> (r: bool)
    ensures
        r == same_ignoring_case(a@, b@),
{
    let left = characters(a);
    let right = characters(b);
    if left.len() != right.len() {
        return false;
    }
    let mut i: usize = 0;
    while i < left.len()
        invariant
            i <= left.len(),
            left.len() == right.len(),
            left@ == a@,
            right@ == b@,
            forall|j: int| 0 <= j < i ==> ascii_lower(#[trigger] a@[j]) == ascii_lower(b@[j]),
        decreases left.len() - i,
    {
        if lower(left[i]) != lower(right[i]) {
            assert(ascii_lower(a@[i as int]) != ascii_lower(b@[i as int]));
            return false;
        }
        i = i + 1;
    }
    true
}

/// Whether two texts hold the same characters.
pub fn same_text(a: &str, b: &str) -> (r: bool)
    ensures
        r == (a@ == b@),
{
    a.to_owned() == b.to_owned()
}

/// The character of a decimal digit.
pub open spec fn digit_char(d: nat) -> char
    recommends
        d < 10,
{
    ('0' as u32 + d) as char
}

/// Whether `c` is an ASCII digit.
pub open spec fn is_digit(c: char) -> bool {
    '0' <= c <= '9'
}

/// The decimal notation of `n`, without leading zeros.
pub open spec fn decimal(n: nat) -> Seq<char>
    decreases n,
{
    if n < 10 {
        seq![digit_char(n)]
    } else {
        decimal(n / 10).push(digit_char(n % 10))
    }
}

/// The value of a run of ASCII digits.
pub open spec fn digits_value(s: Seq<char>) -> nat
    decreases s.len(),
{
    if s.len() == 0 {
        0
    } else {
        digits_value(s.drop_last()) * 10 + (s.last() as u32 - '0' as u32) as nat
    }
}

/// The number that digits alone write, if it fits in 64 bits.
pub open spec fn unsigned(digits: Seq<char>) -> Option<u64> {
    if digits.len() > 0 && (forall|i: int| 0 <= i < digits.len() ==> is_digit(digits[i]))
        && digits_value(digits) <= u64::MAX {
        Some(digits_value(digits) as u64)
    } else {
        None
    }
}

/// What an unsigned 64-bit number reads as: an optional `+`, then at least one
/// ASCII digit and nothing else, with a value that fits.
pub open spec fn number(s: Seq<char>) -> Option<u64> {
    if s.len() > 0 && s[0] == '+' {
        unsigned(s.skip(1))
    } else {
        unsigned(s)
    }
}

/// Why a text is no number. Opaque: it is carried to a log and never read.
#[verifier::external_type_specification]
#[verifier::external_body]
pub struct ExParseIntError(std::num::ParseIntError);

/// Calls `str::parse::<u64>`, which documents its input as an optional `+`
/// followed by digits only and fails on everything else, on the empty text and
/// on a value that does not fit.
#[verifier::external_body]
pub(crate) fn parse_number(s: &str) -> (r: Result<u64, std::num::ParseIntError>)
    ensures
        match r {
            Ok(n) => number(s@) == Some(n),
            Err(_) => number(s@) is None,
        },
{
    s.parse::<u64>()
}

/// The decimal notation of `n`.
pub fn decimal_text(n: u64) -> (r: String)
    ensures
        r@ == decimal(n as nat),
    decreases n,
{
    let last: u8 = (n % 10) as u8;
    let mut r: String = if n < 10 {
        String::new()
    } else {
        decimal_text(n / 10)
    };
    r.push((48u8 + last) as char);
    assert(r@ =~= decimal(n as nat));
    r
}

/// Decimal notation is a run of digits that reads back as the number.
pub proof fn lemma_decimal(n: nat)
    ensures
        decimal(n).len() > 0,
        forall|i: int| 0 <= i < decimal(n).len() ==> is_digit(#[trigger] decimal(n)[i]),
        digits_value(decimal(n)) == n,
    decreases n,
{
    if n < 10 {
        assert(decimal(n).drop_last() =~= Seq::<char>::empty());
        assert(digits_value(Seq::<char>::empty()) == 0);
    } else {
        lemma_decimal(n / 10);
        assert(decimal(n).drop_last() =~= decimal(n / 10));
    }
}

/// Every number reads back from its decimal notation.
pub proof fn lemma_number_of_decimal(n: u64)
    ensures
        number(decimal(n as nat)) == Some(n),
{
    lemma_decimal(n as nat);
    assert(is_digit(decimal(n as nat)[0]));
}

/// A text is split at the first `c` in it: the two sides and the `c` between them
/// are the text, and the left side holds none. Only a text without any `c` is not
/// split.
pub proof fn law_split_at_the_first(s: Seq<char>, c: char)
    ensures
        match split_at_first(s, c) {
            Some((left, right)) => s == left + seq![c] + right && !left.contains(c),
            None => !s.contains(c),
        },
{
    lemma_find(s, c, 0);
    if let Some((left, right)) = split_at_first(s, c) {
        assert(s =~= left + seq![c] + right);
    }
}

/// What is stripped off the start is stripped characters alone, and what is left
/// begins with none.
proof fn lemma_strip_start(s: Seq<char>, edge: Edge)
    ensures
        strip_start(s, edge).len() <= s.len(),
        s == s.take(s.len() - strip_start(s, edge).len()) + strip_start(s, edge),
        forall|i: int|
            0 <= i < s.len() - strip_start(s, edge).len() ==> edge.strips(#[trigger] s[i]),
        strip_start(s, edge).len() > 0 ==> !edge.strips(strip_start(s, edge)[0]),
    decreases s.len(),
{
    let left = strip_start(s, edge);
    if s.len() > 0 && edge.strips(s[0]) {
        let rest = s.skip(1);
        lemma_strip_start(rest, edge);
        assert(s =~= seq![s[0]] + rest);
        assert(s.take(s.len() - left.len()) =~= seq![s[0]] + rest.take(rest.len() - left.len()));
        assert forall|i: int| 0 <= i < s.len() - left.len() implies edge.strips(
            #[trigger] s[i],
        ) by {
            if i > 0 {
                assert(rest[i - 1] == s[i]);
            }
        }
    }
    assert(s =~= s.take(s.len() - left.len()) + left);
}

/// What is stripped off the end is stripped characters alone, and what is left
/// ends with none.
proof fn lemma_strip_end(s: Seq<char>, edge: Edge)
    ensures
        strip_end(s, edge).len() <= s.len(),
        strip_end(s, edge) == s.take(strip_end(s, edge).len() as int),
        forall|i: int|
            strip_end(s, edge).len() <= i < s.len() ==> edge.strips(#[trigger] s[i]),
        strip_end(s, edge).len() > 0 ==> !edge.strips(strip_end(s, edge).last()),
    decreases s.len(),
{
    let left = strip_end(s, edge);
    if s.len() > 0 && edge.strips(s.last()) {
        lemma_strip_end(s.drop_last(), edge);
        assert(s.take(left.len() as int) =~= s.drop_last().take(left.len() as int));
        assert forall|i: int| left.len() <= i < s.len() implies edge.strips(#[trigger] s[i]) by {
            if i < s.len() - 1 {
                assert(s.drop_last()[i] == s[i]);
            }
        }
    } else {
        assert(s.take(left.len() as int) =~= s);
    }
}

/// Trimming takes white space off both ends and nothing else: the text is some
/// white space, what is left, and some more white space; and what is left neither
/// begins nor ends with any.
pub proof fn law_only_padding_is_trimmed(s: Seq<char>)
    ensures
        exists|before: Seq<char>, after: Seq<char>|
            {
                &&& s == #[trigger] (before + trimmed(s) + after)
                &&& forall|i: int| 0 <= i < before.len() ==> is_space(#[trigger] before[i])
                &&& forall|i: int| 0 <= i < after.len() ==> is_space(#[trigger] after[i])
            },
        trimmed(s).len() > 0 ==> !is_space(trimmed(s)[0]) && !is_space(trimmed(s).last()),
{
    let edge = Edge::Space;
    let rest = strip_start(s, edge);
    let left = trimmed(s);
    lemma_strip_start(s, edge);
    lemma_strip_end(rest, edge);
    let before = s.take(s.len() - rest.len());
    let after = rest.skip(left.len() as int);
    assert(s =~= before + left + after);
    assert forall|i: int| 0 <= i < before.len() implies is_space(#[trigger] before[i]) by {
        assert(edge.strips(s[i]));
    }
    assert forall|i: int| 0 <= i < after.len() implies is_space(#[trigger] after[i]) by {
        assert(edge.strips(rest[left.len() + i]));
    }
    if left.len() > 0 {
        assert(left[0] == rest[0]);
    }
}

/// What begins and ends with kept characters is left whole, whatever is stripped
/// before and after it.
pub proof fn lemma_stripped_between(
    before: Seq<char>,
    kept: Seq<char>,
    after: Seq<char>,
    edge: Edge,
)
    requires
        forall|i: int| 0 <= i < before.len() ==> edge.strips(#[trigger] before[i]),
        forall|i: int| 0 <= i < after.len() ==> edge.strips(#[trigger] after[i]),
        kept.len() > 0,
        !edge.strips(kept[0]),
        !edge.strips(kept.last()),
    ensures
        stripped(before + kept + after, edge) == kept,
    decreases before.len() + after.len(),
{
    let all = before + kept + after;
    if before.len() > 0 {
        assert(edge.strips(before[0]));
        assert(all[0] == before[0]);
        assert(all.skip(1) =~= before.skip(1) + kept + after);
        assert forall|i: int| 0 <= i < before.skip(1).len() implies edge.strips(
            #[trigger] before.skip(1)[i],
        ) by {
            assert(edge.strips(before[i + 1]));
        }
        lemma_stripped_between(before.skip(1), kept, after, edge);
    } else if after.len() > 0 {
        assert(all[0] == kept[0]);
        assert(edge.strips(after.last()));
        assert(all.last() == after.last());
        assert(all.drop_last() =~= before + kept + after.drop_last());
        assert forall|i: int| 0 <= i < after.drop_last().len() implies edge.strips(
            #[trigger] after.drop_last()[i],
        ) by {
            assert(edge.strips(after[i]));
        }
        assert(all.drop_last()[0] == kept[0]);
        lemma_stripped_between(before, kept, after.drop_last(), edge);
    } else {
        assert(all =~= kept);
    }
}

/// Two texts agree up to case exactly where they are as long as each other, and
/// each pair of characters is one character, or one letter of the Latin alphabet
/// in both its cases.
pub proof fn law_case_is_all_that_is_ignored(a: Seq<char>, b: Seq<char>)
    ensures
        same_ignoring_case(a, b) <==> a.len() == b.len() && (forall|i: int|
            0 <= i < a.len() ==> {
                ||| #[trigger] a[i] == b[i]
                ||| 'A' <= a[i] <= 'Z' && b[i] as int == a[i] as int + 32
                ||| 'A' <= b[i] <= 'Z' && a[i] as int == b[i] as int + 32
            }),
{
    assert forall|x: char, y: char| #[trigger] ascii_lower(x) == #[trigger] ascii_lower(y)
        <==> (x == y || 'A' <= x <= 'Z' && y as int == x as int + 32 || 'A' <= y <= 'Z' && x as int
        == y as int + 32) by {}
    if a.len() == b.len() {
        assert forall|i: int| 0 <= i < a.len() implies (ascii_lower(#[trigger] a[i])
            == ascii_lower(b[i]) <==> (a[i] == b[i] || 'A' <= a[i] <= 'Z' && b[i] as int
            == a[i] as int + 32 || 'A' <= b[i] <= 'Z' && a[i] as int == b[i] as int + 32)) by {}
    }
}

/// Decimal notation is digits alone, without a leading zero, each digit worth ten
/// times the next; and it reads back as the number.
pub proof fn law_decimal_notation(n: u64)
    ensures
        decimal(n as nat).len() > 0,
        forall|i: int|
            0 <= i < decimal(n as nat).len() ==> '0' <= #[trigger] decimal(n as nat)[i] <= '9',
        n > 0 ==> decimal(n as nat)[0] != '0',
        n == 0 ==> decimal(n as nat) == seq!['0'],
        n >= 10 ==> decimal(n as nat) == decimal((n / 10) as nat).push(
            (48 + n % 10) as char,
        ),
        n < 10 ==> decimal(n as nat) == seq![(48 + n) as char],
        number(decimal(n as nat)) == Some(n),
    decreases n,
{
    lemma_number_of_decimal(n);
    lemma_decimal(n as nat);
    assert forall|i: int| 0 <= i < decimal(n as nat).len() implies '0' <= #[trigger] decimal(
        n as nat,
    )[i] <= '9' by {
        assert(is_digit(decimal(n as nat)[i]));
    }
    if n >= 10 {
        law_decimal_notation(n / 10);
        assert(decimal(n as nat)[0] == decimal((n / 10) as nat)[0]);
    }
}

/// Whatever stands before the first `c` and behind it comes back from the split.
pub proof fn law_split_gives_both_sides(left: Seq<char>, c: char, right: Seq<char>)
    requires
        !left.contains(c),
    ensures
        split_at_first(left + seq![c] + right, c) == Some((left, right)),
        split_at_first(left, c) is None,
{
    let s = left + seq![c] + right;
    lemma_find(s, c, 0);
    lemma_find(left, c, 0);
    let at = find(s, c, 0);
    assert(s[left.len() as int] == c);
    if at < left.len() {
        assert(left[at] == s[at]);
    }
    assert(at == left.len());
    assert(s.take(at) =~= left);
    assert(s.skip(at + 1) =~= right);
}

/// White space is what Unicode says it is: these twenty-five characters.
pub proof fn law_white_space_is_unicodes(c: char)
    ensures
        is_space(c) <==> {
            let point = c as u32;
            ||| 9 <= point <= 13
            ||| point == 32
            ||| point == 133
            ||| point == 160
            ||| point == 5_760
            ||| 8_192 <= point <= 8_202
            ||| point == 8_232
            ||| point == 8_233
            ||| point == 8_239
            ||| point == 8_287
            ||| point == 12_288
        },
{
}

} // verus!
