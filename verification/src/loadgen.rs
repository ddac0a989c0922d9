//! What the load generator reads of a login's answer and of its token.

use crate::common::payload::{payload_bytes, payload_of};
use vstd::prelude::*;
use vstd::utf8::encode_utf8;

verus! {

/// The text of a member of the JSON object that bytes hold; nothing where they
/// hold no such object, or the member is no text.
pub uninterp spec fn json_text(bytes: Seq<u8>, name: Seq<char>) -> Option<Seq<char>>;

/// Calls `serde_json::from_slice`, and takes the text of a member out of what
/// it gives. The claim is that the outcome depends on the arguments alone.
#[verifier::external_body]
fn json_text_member(bytes: &[u8], name: &str) -> (r: Option<String>)
    ensures
        match r {
            Some(text) => json_text(bytes@, name@) == Some(text@),
            None => json_text(bytes@, name@) is None,
        },
{
    let value: serde_json::Value = serde_json::from_slice(bytes).ok()?;
    value[name].as_str().map(str::to_owned)
}

/// Pulls `sub` out of a token without verifying it. Fine here: the generator is
/// not a security boundary, it just needs the id the gateway will inject.
pub fn subject_of(token: &str) -> (r: Option<String>)
    ensures
        match payload_bytes(token@) {
            Some(bytes) => match json_text(bytes, "sub"@) {
                Some(sub) => r matches Some(subject) && subject@ == sub,
                None => r is None,
            },
            None => r is None,
        },
{
    match payload_of(token) {
        Some(bytes) => json_text_member(bytes.as_slice(), "sub"),
        None => None,
    }
}

/// Pulls the access token out of the body that a login was answered with.
pub fn access_token_of(body: &str) -> (r: Option<String>)
    ensures
        match json_text(encode_utf8(body@), "access_token"@) {
            Some(token) => r matches Some(found) && found@ == token,
            None => r is None,
        },
{
    json_text_member(body.as_bytes(), "access_token")
}

} // verus!
