//! Profile versions and the entity tags that carry them.

use crate::common::text::{
    characters, decimal, decimal_text, is_digit, lemma_decimal, lemma_number_of_decimal,
    is_space, lemma_stripped_between, lemma_stripped_keeps, number, parse_number, strip_range,
    stripped, text_between, trimmed, Edge,
};
use std::cmp::Ordering;
use vstd::prelude::*;
use vstd::std_specs::cmp::PartialOrdSpec;

verus! {

/// A profile's revision counter, and the entity tag that carries it.
///
/// One type rather than a `u64` plus a formatting helper plus a parsing
/// helper, so the stored version and the `ETag` on the wire cannot drift
/// apart: [`law_tag_reads_back`] states that the two are inverses.
#[derive(Debug, Clone, Copy, PartialEq, Eq, Ord, Hash, Structural)]
pub struct Version(pub u64);

/// The counter of a freshly created profile.
pub const INITIAL: u64 = 1;

/// The entity tag of the version `counter`, quotes included: `"3"`.
pub open spec fn tag(counter: u64) -> Seq<char> {
    seq!['"'] + decimal(counter as nat) + seq!['"']
}

/// The version that an entity tag names: surrounding white space and then
/// quotes are dropped, and a number is left.
pub open spec fn version_of(text: Seq<char>) -> Option<u64> {
    number(stripped(trimmed(text), Edge::Quote))
}

impl Version {
    /// The version a freshly created profile is stored at.
    #[must_use]
    pub fn initial() -> (r: Version)
        ensures
            r == Version(INITIAL),
    {
        Version(INITIAL)
    }

    /// The counter as a plain integer, for storage backends that must persist
    /// one. Not a leak of an implementation detail: the same number is
    /// published to every client as an `ETag`.
    #[must_use]
    pub fn get(self) -> (r: u64)
        ensures
            r == self.0,
    {
        self.0
    }

    /// Rebuilds a version read back from storage.
    #[must_use]
    pub fn from_counter(counter: u64) -> (r: Version)
        ensures
            r == Version(counter),
    {
        Version(counter)
    }

    /// The version this one becomes after an accepted write, or [`None`] if
    /// the counter cannot advance.
    ///
    /// Fallible rather than saturating or wrapping: at saturation every stale
    /// version would silently become valid again, and at wrap the sequence
    /// would repeat. Both turn a capacity limit into a correctness failure, so
    /// the caller is made to handle it.
    #[must_use]
    pub fn checked_next(self) -> (r: Option<Version>)
        ensures
            self.0 < u64::MAX ==> r == Some(Version((self.0 + 1) as u64)),
            self.0 == u64::MAX ==> r is None,
    {
        match self.0.checked_add(1) {
            Some(next) => Some(Version(next)),
            None => None,
        }
    }

    /// Renders the version as an HTTP entity tag, quotes included: `"3"`.
    pub fn to_string(&self) -> (r: String)
        ensures
            r@ == tag(self.0),
    {
        let mut r: String = String::new();
        r.push('"');
        let digits = decimal_text(self.0);
        r.append(digits.as_str());
        r.push('"');
        assert(r@ =~= tag(self.0));
        r
    }
}

impl PartialOrd for Version {
    /// A version is before another where its counter is smaller.
    fn partial_cmp(&self, other: &Version) -> (r: Option<Ordering>) {
        if self.0 < other.0 {
            Some(Ordering::Less)
        } else if self.0 == other.0 {
            Some(Ordering::Equal)
        } else {
            Some(Ordering::Greater)
        }
    }
}

impl vstd::std_specs::cmp::PartialOrdSpecImpl for Version {
    open spec fn obeys_partial_cmp_spec() -> bool {
        true
    }

    open spec fn partial_cmp_spec(&self, other: &Version) -> Option<Ordering> {
        if self.0 < other.0 {
            Some(Ordering::Less)
        } else if self.0 == other.0 {
            Some(Ordering::Equal)
        } else {
            Some(Ordering::Greater)
        }
    }
}

/// An `If-Match` value that is not a version this service issued.
#[derive(Debug, Clone, Copy, PartialEq, Eq, Structural)]
pub struct InvalidVersion;

impl InvalidVersion {
    /// What to tell whoever sent the value.
    pub fn to_string(&self) -> (r: String)
        ensures
            r@ == "expected an entity tag such as \"3\""@,
    {
        "expected an entity tag such as \"3\"".to_owned()
    }
}

impl std::str::FromStr for Version {
    type Err = InvalidVersion;

    /// Accepts the quoted form an `ETag` round-trips as (`"3"`) and the bare
    /// form typed by hand (`3`).
    ///
    /// `*` is rejected rather than treated as "any version": it means exactly
    /// the unconditional overwrite the precondition exists to prevent.
    fn from_str(s: &str) -> (r: Result<Version, InvalidVersion>)
        ensures
            match r {
                Ok(version) => version_of(s@) == Some(version.0),
                Err(_) => version_of(s@) is None,
            },
    {
        let chars = characters(s);
        assert(chars@.subrange(0, chars@.len() as int) =~= chars@);
        let (from, to) = strip_range(&chars, 0, chars.len(), Edge::Space);
        let (from, to) = strip_range(&chars, from, to, Edge::Quote);
        let digits = text_between(&chars, from, to);
        match parse_number(digits.as_str()) {
            Ok(counter) => Ok(Version(counter)),
            Err(_) => Err(InvalidVersion),
        }
    }
}

/// Versions are their counters: a counter makes one version and comes back out
/// of it, and versions are ordered as their counters are.
pub proof fn law_versions_are_their_counters(n: u64, m: u64, version: Version)
    ensures
        Version(n).0 == n,
        Version(version.0) == version,
        Version(n).partial_cmp_spec(&Version(m)) == Some(Ordering::Less) <==> n < m,
        Version(n).partial_cmp_spec(&Version(m)) == Some(Ordering::Equal) <==> n == m,
        Version(n).partial_cmp_spec(&Version(m)) == Some(Ordering::Greater) <==> n > m,
{
}

/// Rendering a version and reading it back are inverses: the entity tag of a
/// version names exactly that version.
pub proof fn law_tag_reads_back(counter: u64)
    ensures
        version_of(tag(counter)) == Some(counter),
{
    let digits = decimal(counter as nat);
    lemma_decimal(counter as nat);
    lemma_number_of_decimal(counter);
    lemma_stripped_keeps(tag(counter), Edge::Space);
    let inner = tag(counter).skip(1);
    assert(tag(counter)[0] == '"');
    assert(is_digit(inner[0]));
    assert(crate::common::text::strip_start(tag(counter), Edge::Quote) == inner) by {
        reveal_with_fuel(crate::common::text::strip_start, 2);
    }
    assert(inner.drop_last() =~= digits);
    assert(is_digit(digits.last()));
    assert(crate::common::text::strip_end(inner, Edge::Quote) == digits) by {
        reveal_with_fuel(crate::common::text::strip_end, 2);
    }
}

/// The bare number of a version, typed by hand, names that version too.
pub proof fn law_bare_number_reads_back(counter: u64)
    ensures
        version_of(decimal(counter as nat)) == Some(counter),
{
    let digits = decimal(counter as nat);
    lemma_decimal(counter as nat);
    lemma_number_of_decimal(counter);
    assert(is_digit(digits[0]) && is_digit(digits.last()));
    lemma_stripped_keeps(digits, Edge::Space);
    lemma_stripped_keeps(digits, Edge::Quote);
}

/// The wildcard names no version, however it is padded.
pub proof fn law_wildcard_is_rejected(text: Seq<char>)
    requires
        trimmed(text) == seq!['*'],
    ensures
        version_of(text) is None,
{
    lemma_stripped_keeps(seq!['*'], Edge::Quote);
    let digits = stripped(trimmed(text), Edge::Quote);
    assert(digits == seq!['*']);
    assert(digits.len() == 1 && digits[0] == '*');
    assert(!is_digit(digits[0]));
}

/// The version that a text names is the number between its quotes, whatever white
/// space stands around it and however many quotes there are.
pub proof fn law_versions_are_read_between_quotes(
    before: Seq<char>,
    opening: Seq<char>,
    digits: Seq<char>,
    closing: Seq<char>,
    after: Seq<char>,
)
    requires
        forall|i: int| 0 <= i < before.len() ==> is_space(#[trigger] before[i]),
        forall|i: int| 0 <= i < opening.len() ==> #[trigger] opening[i] == '"',
        digits.len() > 0,
        !is_space(digits[0]) && digits[0] != '"',
        !is_space(digits.last()) && digits.last() != '"',
        forall|i: int| 0 <= i < closing.len() ==> #[trigger] closing[i] == '"',
        forall|i: int| 0 <= i < after.len() ==> is_space(#[trigger] after[i]),
    ensures
        version_of(before + (opening + digits + closing) + after) == number(digits),
{
    let quoted = opening + digits + closing;
    assert(quoted[0] == if opening.len() > 0 {
        opening[0]
    } else {
        digits[0]
    });
    assert(quoted.last() == if closing.len() > 0 {
        closing.last()
    } else {
        digits.last()
    });
    lemma_stripped_between(before, quoted, after, Edge::Space);
    lemma_stripped_between(opening, digits, closing, Edge::Quote);
}

/// The tag of a version is its number between two quotes.
pub proof fn law_tags_are_quoted_numbers(counter: u64)
    ensures
        tag(counter).len() == decimal(counter as nat).len() + 2,
        tag(counter)[0] == '"',
        tag(counter).last() == '"',
        tag(counter).subrange(1, tag(counter).len() - 1) == decimal(counter as nat),
        INITIAL == 1,
{
    assert(tag(counter).subrange(1, tag(counter).len() - 1) =~= decimal(counter as nat));
}

} // verus!
