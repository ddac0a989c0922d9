//! Account identifiers.

use crate::common::ids::fresh_id;
use vstd::prelude::*;

verus! {

/// Opaque identifier for a user account.
///
/// A newtype rather than a bare [`String`] so an id cannot be silently
/// interchanged with a username, an address, or any other string in scope. The
/// distinction matters most on the internal hop, where the gateway writes an
/// id into a header and the profile service reads it back out.
#[derive(Debug, PartialEq, Eq, Hash, PartialOrd, Ord)]
pub struct UserId(String);

impl View for UserId {
    type V = Seq<char>;

    closed spec fn view(&self) -> Seq<char> {
        self.0@
    }
}

impl UserId {
    /// The identifier spelled by `value`; any string is one.
    pub closed spec fn of(value: String) -> UserId {
        UserId(value)
    }

    /// Generates a fresh random identifier.
    #[must_use]
    pub fn random() -> (r: UserId)
        ensures
            crate::common::ids::is_drawn(r@),
            crate::common::ids::is_random_uuid(r@),
    {
        UserId(fresh_id())
    }

    /// Borrows the identifier as a string slice.
    #[must_use]
    pub fn as_str(&self) -> (r: &str)
        ensures
            r@ == self@,
    {
        self.0.as_str()
    }

    /// Renders the identifier, which is its own text.
    pub fn to_string(&self) -> (r: String)
        ensures
            r@ == self@,
    {
        self.0.clone()
    }
}

impl Clone for UserId {
    fn clone(&self) -> (r: UserId)
        ensures
            r@ == self@,
    {
        UserId(self.0.clone())
    }
}

impl From<String> for UserId {
    fn from(value: String) -> (r: UserId)
        ensures
            r@ == value@,
    {
        UserId(value)
    }
}

impl vstd::std_specs::convert::FromSpecImpl<String> for UserId {
    open spec fn obeys_from_spec() -> bool {
        true
    }

    open spec fn from_spec(value: String) -> UserId {
        UserId::of(value)
    }
}

impl<'a> From<&'a str> for UserId {
    fn from(value: &'a str) -> (r: UserId)
        ensures
            r@ == value@,
    {
        UserId(value.to_owned())
    }
}

impl<'a> vstd::std_specs::convert::FromSpecImpl<&'a str> for UserId {
    open spec fn obeys_from_spec() -> bool {
        false
    }

    open spec fn from_spec(value: &'a str) -> UserId {
        arbitrary()
    }
}

impl AsRef<str> for UserId {
    fn as_ref(&self) -> (r: &str)
        ensures
            r@ == self@,
    {
        self.0.as_str()
    }
}

impl std::str::FromStr for UserId {
    type Err = std::convert::Infallible;

    /// Never fails; any string is a syntactically valid identifier.
    fn from_str(s: &str) -> (r: Result<UserId, std::convert::Infallible>)
        ensures
            r matches Ok(id) && id@ == s@,
    {
        Ok(UserId(s.to_owned()))
    }
}

} // verus!
