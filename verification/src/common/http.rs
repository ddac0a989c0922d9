//! The parts of a request and a response that decisions are made from.

use crate::common::text::same_text;
use vstd::prelude::*;

verus! {

/// One header: its name in lower case, and its value as it came.
#[derive(Debug, PartialEq, Eq)]
pub struct Header {
    /// Lower-case name.
    pub name: String,
    /// Value, in bytes.
    pub value: Vec<u8>,
}

/// What a header says.
#[verifier::ext_equal]
pub struct HeaderView {
    /// Lower-case name.
    pub name: Seq<char>,
    /// Value, in bytes.
    pub value: Seq<u8>,
}

impl View for Header {
    type V = HeaderView;

    open spec fn view(&self) -> HeaderView {
        HeaderView { name: self.name@, value: self.value@ }
    }
}

/// What a list of headers says.
pub open spec fn headers_view(headers: Seq<Header>) -> Seq<HeaderView> {
    Seq::new(headers.len(), |i: int| headers[i]@)
}

impl Header {
    /// The header `name` with a text for its value.
    pub fn with_text(name: &str, value: &str) -> (r: Header)
        ensures
            r.name@ == name@,
            r.value@ == vstd::utf8::encode_utf8(value@),
    {
        let bytes = copy_bytes(value.as_bytes());
        Header { name: name.to_owned(), value: bytes }
    }

    /// The header `name` with raw bytes for its value.
    pub fn with_bytes(name: &str, value: &[u8]) -> (r: Header)
        ensures
            r@ == (HeaderView { name: name@, value: value@ }),
    {
        Header { name: name.to_owned(), value: copy_bytes(value) }
    }
}

/// A copy of `bytes`.
pub fn copy_bytes(bytes: &[u8]) -> (r: Vec<u8>)
    ensures
        r@ == bytes@,
{
    let mut r: Vec<u8> = Vec::new();
    let mut i: usize = 0;
    while i < bytes.len()
        invariant
            i <= bytes.len(),
            r@ == bytes@.take(i as int),
        decreases bytes.len() - i,
    {
        r.push(bytes[i]);
        assert(bytes@.take(i + 1) == bytes@.take(i as int).push(bytes@[i as int]));
        i = i + 1;
    }
    assert(bytes@.take(i as int) == bytes@);
    r
}

/// The value of the first header called `name`.
pub open spec fn header_value(headers: Seq<HeaderView>, name: Seq<char>) -> Option<Seq<u8>>
    decreases headers.len(),
{
    if headers.len() == 0 {
        None
    } else if headers[0].name == name {
        Some(headers[0].value)
    } else {
        header_value(headers.skip(1), name)
    }
}

/// The value of the first header called `name`.
pub fn find_header<'a>(headers: &'a Vec<Header>, name: &str) -> (r: Option<&'a Vec<u8>>)
    ensures
        match r {
            Some(value) => header_value(headers_view(headers@), name@) == Some(value@),
            None => header_value(headers_view(headers@), name@) is None,
        },
{
    let ghost all = headers_view(headers@);
    let mut i: usize = 0;
    assert(all.skip(0) == all);
    while i < headers.len()
        invariant
            i <= headers.len(),
            all == headers_view(headers@),
            header_value(all, name@) == header_value(all.skip(i as int), name@),
        decreases headers.len() - i,
    {
        assert(all.skip(i as int)[0] == headers[i as int]@);
        if same_text(headers[i].name.as_str(), name) {
            return Some(&headers[i].value);
        }
        assert(all.skip(i as int).skip(1) == all.skip(i + 1));
        i = i + 1;
    }
    None
}

/// The headers that are not called `name`.
pub open spec fn without(headers: Seq<HeaderView>, name: Seq<char>) -> Seq<HeaderView>
    decreases headers.len(),
{
    if headers.len() == 0 {
        Seq::empty()
    } else if headers[0].name == name {
        without(headers.skip(1), name)
    } else {
        seq![headers[0]] + without(headers.skip(1), name)
    }
}

/// The headers with `value` in place of whatever `name` said before.
pub open spec fn with_header(headers: Seq<HeaderView>, name: Seq<char>, value: Seq<u8>) -> Seq<
    HeaderView,
> {
    seq![HeaderView { name, value }] + without(headers, name)
}

/// The headers with `value` in place of whatever `name` said before.
pub fn set_header(headers: &Vec<Header>, name: &str, value: &[u8]) -> (r: Vec<Header>)
    ensures
        headers_view(r@) == with_header(headers_view(headers@), name@, value@),
{
    let ghost all = headers_view(headers@);
    let mut r: Vec<Header> = Vec::new();
    r.push(Header::with_bytes(name, value));
    let mut i: usize = 0;
    assert(all.skip(0) =~= all);
    assert(headers_view(r@) + without(all, name@) =~= with_header(all, name@, value@));
    while i < headers.len()
        invariant
            i <= headers.len(),
            all == headers_view(headers@),
            headers_view(r@) + without(all.skip(i as int), name@) == with_header(
                all,
                name@,
                value@,
            ),
        decreases headers.len() - i,
    {
        let header = &headers[i];
        assert(all.skip(i as int)[0] == header@);
        assert(all.skip(i as int).skip(1) =~= all.skip(i + 1));
        let ghost before = headers_view(r@);
        if !same_text(header.name.as_str(), name) {
            r.push(Header::with_bytes(header.name.as_str(), header.value.as_slice()));
            assert(headers_view(r@) =~= before.push(header@));
            assert(headers_view(r@) + without(all.skip(i + 1), name@) =~= before + (seq![header@]
                + without(all.skip(i + 1), name@)));
        }
        i = i + 1;
    }
    assert(headers_view(r@) + without(all.skip(i as int), name@) =~= headers_view(r@));
    r
}

/// A header that was set reads back, and no other header is touched.
pub proof fn law_set_header_reads_back(
    headers: Seq<HeaderView>,
    name: Seq<char>,
    value: Seq<u8>,
    other: Seq<char>,
)
    ensures
        header_value(with_header(headers, name, value), name) == Some(value),
        other != name ==> header_value(with_header(headers, name, value), other) == header_value(
            headers,
            other,
        ),
{
    let set = with_header(headers, name, value);
    assert(set[0] == (HeaderView { name, value }));
    assert(set.skip(1) =~= without(headers, name));
    if other != name {
        lemma_without_keeps(headers, name, other);
    }
}

/// Leaving one name out does not touch another.
proof fn lemma_without_keeps(headers: Seq<HeaderView>, name: Seq<char>, other: Seq<char>)
    requires
        other != name,
    ensures
        header_value(without(headers, name), other) == header_value(headers, other),
    decreases headers.len(),
{
    if headers.len() > 0 {
        lemma_without_keeps(headers.skip(1), name, other);
        if headers[0].name != name {
            let kept = without(headers, name);
            assert(kept[0] == headers[0]);
            assert(kept.skip(1) =~= without(headers.skip(1), name));
        }
    }
}

/// Whether a byte may stand in a header value that is read as text.
pub open spec fn is_text_byte(b: u8) -> bool {
    32 <= b < 127 || b == 9
}

/// A header value as text: nothing unless every byte is visible ASCII, a space
/// or a tab.
pub open spec fn value_text(value: Seq<u8>) -> Option<Seq<char>> {
    if forall|i: int| 0 <= i < value.len() ==> is_text_byte(#[trigger] value[i]) {
        Some(Seq::new(value.len(), |i: int| value[i] as char))
    } else {
        None
    }
}

/// Reads a header value as text.
pub fn to_text(value: &Vec<u8>) -> (r: Option<String>)
    ensures
        match r {
            Some(text) => value_text(value@) == Some(text@),
            None => value_text(value@) is None,
        },
{
    let mut r: String = String::new();
    let mut i: usize = 0;
    while i < value.len()
        invariant
            i <= value.len(),
            forall|j: int| 0 <= j < i ==> is_text_byte(#[trigger] value@[j]),
            r@ == Seq::new(i as nat, |j: int| value@[j] as char),
        decreases value.len() - i,
    {
        let b: u8 = value[i];
        if !((32 <= b && b < 127) || b == 9) {
            assert(!is_text_byte(value@[i as int]));
            return None;
        }
        r.push(b as char);
        assert(r@ == Seq::new((i + 1) as nat, |j: int| value@[j] as char));
        i = i + 1;
    }
    Some(r)
}

/// The text of the first header called `name`: nothing where there is no such
/// header or where its value is not text.
pub open spec fn header_text(headers: Seq<HeaderView>, name: Seq<char>) -> Option<Seq<char>> {
    match header_value(headers, name) {
        Some(value) => value_text(value),
        None => None,
    }
}

/// The text of the first header called `name`.
pub fn find_text(headers: &Vec<Header>, name: &str) -> (r: Option<String>)
    ensures
        match r {
            Some(text) => header_text(headers_view(headers@), name@) == Some(text@),
            None => header_text(headers_view(headers@), name@) is None,
        },
{
    match find_header(headers, name) {
        Some(value) => to_text(value),
        None => None,
    }
}

/// A response with a text body.
#[derive(Debug, PartialEq, Eq)]
pub struct Reply {
    /// Status code.
    pub status: u16,
    /// Headers, by name and text.
    pub headers: Vec<(String, String)>,
    /// Body.
    pub body: String,
}

/// What a response says.
#[verifier::ext_equal]
pub struct ReplyView {
    /// Status code.
    pub status: u16,
    /// Headers, by name and text.
    pub headers: Seq<(Seq<char>, Seq<char>)>,
    /// Body.
    pub body: Seq<char>,
}

impl View for Reply {
    type V = ReplyView;

    open spec fn view(&self) -> ReplyView {
        ReplyView {
            status: self.status,
            headers: Seq::new(
                self.headers@.len(),
                |i: int| (self.headers@[i].0@, self.headers@[i].1@),
            ),
            body: self.body@,
        }
    }
}

/// The content type of every JSON body.
pub const JSON: &'static str = "application/json";

/// A response with a JSON body and, where one is given, one more header.
pub open spec fn json_reply(
    status: u16,
    extra: Option<(Seq<char>, Seq<char>)>,
    body: Seq<char>,
) -> ReplyView {
    ReplyView {
        status,
        headers: match extra {
            Some(header) => seq![("content-type"@, JSON@), header],
            None => seq![("content-type"@, JSON@)],
        },
        body,
    }
}

impl Reply {
    /// A response with a JSON body.
    pub fn json(status: u16, body: String) -> (r: Reply)
        ensures
            r@ == json_reply(status, None, body@),
    {
        let mut headers: Vec<(String, String)> = Vec::new();
        headers.push(("content-type".to_owned(), JSON.to_owned()));
        Reply { status, headers, body }
    }

    /// A response with a JSON body and one more header.
    pub fn json_with(status: u16, name: &str, value: &str, body: String) -> (r: Reply)
        ensures
            r@ == json_reply(status, Some((name@, value@)), body@),
    {
        let mut headers: Vec<(String, String)> = Vec::new();
        headers.push(("content-type".to_owned(), JSON.to_owned()));
        headers.push((name.to_owned(), value.to_owned()));
        Reply { status, headers, body }
    }
}

/// The first header of a name counts, and only where there is none does the name
/// read as nothing.
pub proof fn law_the_first_header_counts(headers: Seq<HeaderView>, name: Seq<char>, at: int)
    requires
        0 <= at <= headers.len(),
        forall|i: int| 0 <= i < at ==> (#[trigger] headers[i]).name != name,
    ensures
        at < headers.len() && headers[at].name == name ==> header_value(headers, name) == Some(
            headers[at].value,
        ),
        at == headers.len() ==> header_value(headers, name) is None,
    decreases at,
{
    if at > 0 {
        assert(headers[0].name != name);
        assert forall|i: int| 0 <= i < at - 1 implies (#[trigger] headers.skip(1)[i]).name
            != name by {
            assert(headers[i + 1].name != name);
        }
        law_the_first_header_counts(headers.skip(1), name, at - 1);
    }
}

/// Setting a header puts it in front, takes every other of its name away, and
/// leaves the rest as they are, in their order.
pub proof fn law_set_header_replaces(headers: Seq<HeaderView>, name: Seq<char>, value: Seq<u8>)
    ensures
        with_header(headers, name, value) == seq![HeaderView { name, value }] + headers.filter(
            |header: HeaderView| header.name != name,
        ),
    decreases headers.len(),
{
    lemma_without_filters(headers, name);
}

/// Leaving one name out is keeping the others.
proof fn lemma_without_filters(headers: Seq<HeaderView>, name: Seq<char>)
    ensures
        without(headers, name) == headers.filter(|header: HeaderView| header.name != name),
    decreases headers.len(),
{
    let other = |header: HeaderView| header.name != name;
    if headers.len() == 0 {
        assert(headers.filter(other) =~= Seq::<HeaderView>::empty()) by {
            reveal(Seq::filter);
        }
    } else {
        let rest = headers.skip(1);
        lemma_without_filters(rest, name);
        assert(headers =~= seq![headers[0]] + rest);
        Seq::filter_distributes_over_add(seq![headers[0]], rest, other);
        assert(seq![headers[0]].filter(other) =~= if other(headers[0]) {
            seq![headers[0]]
        } else {
            Seq::<HeaderView>::empty()
        }) by {
            reveal(Seq::filter);
            assert(seq![headers[0]].drop_last() =~= Seq::<HeaderView>::empty());
            assert(Seq::<HeaderView>::empty().filter(other) =~= Seq::<HeaderView>::empty());
        }
        assert(Seq::<HeaderView>::empty() + rest.filter(other) =~= rest.filter(other));
    }
}

/// A header value is text exactly where each of its bytes is a tab or a visible
/// ASCII character or a space; and then it is that text, character by byte.
pub proof fn law_visible_values_are_text(value: Seq<u8>)
    ensures
        value_text(value) is Some <==> (forall|i: int|
            0 <= i < value.len() ==> #[trigger] value[i] == 9 || 32 <= value[i] <= 126),
        value_text(value) matches Some(text) ==> text.len() == value.len() && (forall|i: int|
            0 <= i < text.len() ==> #[trigger] text[i] as int == value[i] as int),
{
    if forall|i: int| 0 <= i < value.len() ==> #[trigger] value[i] == 9 || 32 <= value[i] <= 126 {
        assert forall|i: int| 0 <= i < value.len() implies is_text_byte(#[trigger] value[i]) by {}
    }
    if value_text(value) is Some {
        assert forall|i: int| 0 <= i < value.len() implies #[trigger] value[i] == 9 || 32
            <= value[i] <= 126 by {
            assert(is_text_byte(value[i]));
        }
    }
}

/// The text of a name is that of the first header of that name, and nothing where
/// there is none or it is no text.
pub proof fn law_header_text_is_the_first_value(headers: Seq<HeaderView>, name: Seq<char>)
    ensures
        header_text(headers, name) == match header_value(headers, name) {
            Some(value) => value_text(value),
            None => None,
        },
{
}

/// A JSON response carries its status, the JSON content type before anything
/// else, the header it was given and no other, and its body as it is.
pub proof fn law_json_replies_carry_their_body(
    status: u16,
    extra: Option<(Seq<char>, Seq<char>)>,
    body: Seq<char>,
)
    ensures
        json_reply(status, extra, body).status == status,
        json_reply(status, extra, body).body == body,
        json_reply(status, extra, body).headers.len() == if extra is Some {
            2int
        } else {
            1int
        },
        json_reply(status, extra, body).headers[0] == ("content-type"@, "application/json"@),
        extra matches Some(header) ==> json_reply(status, extra, body).headers[1] == header,
{
}

/// A request is seen whole: every header of it, in its place, name and value as
/// they are; and so is a response.
pub proof fn law_headers_are_seen_whole(headers: Seq<Header>, reply: Reply, at: int)
    ensures
        headers_view(headers).len() == headers.len(),
        0 <= at < headers.len() ==> headers_view(headers)[at].name == headers[at].name@
            && headers_view(headers)[at].value == headers[at].value@,
        reply@.status == reply.status,
        reply@.body == reply.body@,
        reply@.headers.len() == reply.headers@.len(),
        0 <= at < reply.headers@.len() ==> reply@.headers[at] == (
            reply.headers@[at].0@,
            reply.headers@[at].1@,
        ),
{
}

} // verus!
