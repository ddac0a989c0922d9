//! Request correlation across the gateway hop.
//!
//! With two services, "grep both logs around the same timestamp" stops working
//! the moment there is more than one request in flight. Every request gets an
//! id — accepted from the caller when present, so a trace can start at the
//! client, and minted here otherwise — which is forwarded upstream, and echoed
//! to the caller so a user reporting a failure can quote it.

use crate::common::headers::REQUEST_ID;
use crate::common::http::{
    find_text, header_text, headers_view, set_header, with_header, Header, HeaderView,
};
use crate::common::ids::{fresh_id, is_drawn, is_hex, is_random_uuid};
use crate::common::text::characters;
use vstd::prelude::*;
use vstd::utf8::encode_utf8;

verus! {

/// Longest accepted inbound id.
///
/// Client-supplied values end up in log lines, so they are bounded and
/// restricted to characters that cannot break a log parser or smuggle a line
/// ending. Anything failing that is replaced rather than rejected: a malformed
/// correlation id is not worth failing a request over.
pub const MAX_LEN: usize = 64;

/// Whether a character may stand in a request id.
pub open spec fn is_id_char(c: char) -> bool {
    ('0' <= c <= '9') || ('a' <= c <= 'z') || ('A' <= c <= 'Z') || c == '-' || c == '_'
}

/// Whether a client-supplied id is safe to log and forward verbatim.
pub open spec fn acceptable(id: Seq<char>) -> bool {
    &&& 0 < id.len() <= MAX_LEN
    &&& forall|i: int| 0 <= i < id.len() ==> is_id_char(#[trigger] id[i])
}

/// Whether a client-supplied id is safe to log and forward verbatim.
pub fn is_acceptable(id: &str) -> (r: bool)
    ensures
        r == acceptable(id@),
{
    let chars = characters(id);
    if chars.len() == 0 || chars.len() > MAX_LEN {
        return false;
    }
    let mut i: usize = 0;
    while i < chars.len()
        invariant
            i <= chars.len(),
            chars@ == id@,
            forall|j: int| 0 <= j < i ==> is_id_char(#[trigger] id@[j]),
        decreases chars.len() - i,
    {
        let c = chars[i];
        if !(('0' <= c && c <= '9') || ('a' <= c && c <= 'z') || ('A' <= c && c <= 'Z') || c == '-'
            || c == '_') {
            assert(!is_id_char(id@[i as int]));
            return false;
        }
        i = i + 1;
    }
    true
}

/// Whether `id` is one that a request with these headers may get: its own where
/// that is acceptable, and a fresh one otherwise.
pub open spec fn is_assigned(headers: Seq<HeaderView>, id: Seq<char>) -> bool {
    match header_text(headers, REQUEST_ID@) {
        Some(quoted) => if acceptable(quoted) {
            id == quoted
        } else {
            is_drawn(id) && is_random_uuid(id)
        },
        None => is_drawn(id) && is_random_uuid(id),
    }
}

/// Assigns a request its id, and puts it back into the headers in normalised
/// form, so the gateway forwards exactly what it logged, even when the caller
/// supplied nothing or supplied junk.
pub fn propagate(headers: &Vec<Header>) -> (r: (String, Vec<Header>))
    ensures
        is_assigned(headers_view(headers@), r.0@),
        headers_view(r.1@) == with_header(
            headers_view(headers@),
            REQUEST_ID@,
            encode_utf8(r.0@),
        ),
{
    let id = match find_text(headers, REQUEST_ID) {
        Some(quoted) => {
            if is_acceptable(quoted.as_str()) {
                quoted
            } else {
                fresh_id()
            }
        },
        None => fresh_id(),
    };
    let forwarded = set_header(headers, REQUEST_ID, id.as_str().as_bytes());
    (id, forwarded)
}

/// Echoes the id of a request in the headers of its response.
pub fn echo(headers: &Vec<Header>, id: &str) -> (r: Vec<Header>)
    ensures
        headers_view(r@) == with_header(headers_view(headers@), REQUEST_ID@, encode_utf8(id@)),
{
    set_header(headers, REQUEST_ID, id.as_bytes())
}

/// Whatever a client sends, the id that is logged, forwarded and echoed is one
/// that cannot break a log line.
pub proof fn law_assigned_ids_are_acceptable(headers: Seq<HeaderView>, id: Seq<char>)
    requires
        is_assigned(headers, id),
    ensures
        acceptable(id),
{
    if is_random_uuid(id) {
        assert forall|i: int| 0 <= i < id.len() implies is_id_char(#[trigger] id[i]) by {
            assert(i == 8 || i == 13 || i == 18 || i == 23 || is_hex(id[i]));
        }
    }
}

/// An id that a client sent is kept exactly where it is one to sixty-four
/// letters, digits, hyphens and underscores; any other request gets a fresh one.
pub proof fn law_plausible_ids_are_kept(
    headers: Seq<HeaderView>,
    quoted: Seq<char>,
    id: Seq<char>,
)
    requires
        is_assigned(headers, id),
    ensures
        header_text(headers, REQUEST_ID@) == Some(quoted) && 1 <= quoted.len() <= 64 && (forall|
            i: int,
        |
            0 <= i < quoted.len() ==> ('0' <= #[trigger] quoted[i] <= '9' || 'a' <= quoted[i]
                <= 'z' || 'A' <= quoted[i] <= 'Z' || quoted[i] == '-' || quoted[i] == '_'))
            ==> id == quoted,
        header_text(headers, REQUEST_ID@) == Some(quoted) && (quoted.len() == 0 || quoted.len() > 64
            || (exists|i: int|
            0 <= i < quoted.len() && !('0' <= #[trigger] quoted[i] <= '9' || 'a' <= quoted[i]
                <= 'z' || 'A' <= quoted[i] <= 'Z' || quoted[i] == '-' || quoted[i] == '_')))
            ==> is_drawn(id),
        header_text(headers, REQUEST_ID@) is None ==> is_drawn(id),
{
    if acceptable(quoted) {
        assert forall|i: int| 0 <= i < quoted.len() implies ('0' <= #[trigger] quoted[i] <= '9'
            || 'a' <= quoted[i] <= 'z' || 'A' <= quoted[i] <= 'Z' || quoted[i] == '-' || quoted[i]
            == '_') by {
            assert(is_id_char(quoted[i]));
        }
    } else if 1 <= quoted.len() <= 64 {
        let i = choose|i: int| 0 <= i < quoted.len() && !is_id_char(#[trigger] quoted[i]);
        assert(!is_id_char(quoted[i]));
    }
}

} // verus!
