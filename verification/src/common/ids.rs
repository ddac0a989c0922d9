//! Random identifiers.

use crate::common::time::asked;
use vstd::prelude::*;

verus! {

/// Whether `c` is a lower-case hexadecimal digit.
pub open spec fn is_hex(c: char) -> bool {
    ('0' <= c <= '9') || ('a' <= c <= 'f')
}

/// The hyphenated form of a random (version 4) UUID: groups of eight, four,
/// four, four and twelve lower-case hexadecimal digits, of which one names the
/// version and one the variant.
pub open spec fn is_random_uuid(s: Seq<char>) -> bool {
    &&& s.len() == 36
    &&& forall|i: int|
        0 <= i < 36 ==> if i == 8 || i == 13 || i == 18 || i == 23 {
            #[trigger] s[i] == '-'
        } else {
            is_hex(s[i])
        }
    &&& s[14] == '4'
    &&& s[19] == '8' || s[19] == '9' || s[19] == 'a' || s[19] == 'b'
}

/// Calls `uuid::Uuid::new_v4` and renders the result. The digits are random;
/// what holds of every outcome is its shape.
#[verifier::external_body]
pub(crate) fn random_uuid() -> (r: String)
    ensures
        is_random_uuid(r@),
{
    uuid::Uuid::new_v4().to_string()
}

/// Whether an identifier was drawn: a call of the generator gave it.
pub closed spec fn is_drawn(id: Seq<char>) -> bool {
    exists|text: String| #[trigger] call_ensures(random_uuid, (), text) && text@ == id
}

/// Draws a fresh identifier.
pub(crate) fn fresh_id() -> (r: String)
    ensures
        is_drawn(r@),
        is_random_uuid(r@),
{
    asked(random_uuid)
}

/// Nothing counts as drawn that the generator did not give.
proof fn law_ids_come_from_the_generator(id: Seq<char>)
    requires
        is_drawn(id),
    ensures
        exists|text: String| #[trigger] call_ensures(random_uuid, (), text) && text@ == id,
        is_random_uuid(id),
{
    let text = choose|text: String| #[trigger]
        call_ensures(random_uuid, (), text) && text@ == id;
    assert(call_ensures(random_uuid, (), text));
}

} // verus!
