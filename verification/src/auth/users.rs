//! In-memory user directory.

use crate::auth::password::{
    argon2_check, hash, is_checkable, is_hashable, is_match, make_decoy, verify, DECOY,
};
use crate::common::ids::{is_drawn, is_random_uuid};
use crate::common::user_id::UserId;
use std::sync::Arc;
use vstd::hash_map::StringHashMap;
use vstd::prelude::*;

verus! {

/// A stored account.
///
/// Fields are private: the password hash must not be readable by handler code,
/// and the id and username are only meaningful together.
pub struct UserRecord {
    id: UserId,
    username: String,
    /// PHC string; the salt and Argon2 parameters are embedded in it.
    password_hash: String,
}

/// What an account says.
#[verifier::ext_equal]
pub struct AccountView {
    /// The account's stable identifier.
    pub id: Seq<char>,
    /// The account's login name.
    pub username: Seq<char>,
    /// PHC string.
    pub password_hash: Seq<char>,
}

impl View for UserRecord {
    type V = AccountView;

    closed spec fn view(&self) -> AccountView {
        AccountView {
            id: self.id@,
            username: self.username@,
            password_hash: self.password_hash@,
        }
    }
}

/// What may be shown of an account.
///
/// A hash is not a plaintext password, but it is offline-crackable material and
/// has no business appearing in a log line.
#[derive(Debug)]
pub struct UserSummary {
    /// The account's stable identifier.
    pub id: String,
    /// The account's login name.
    pub username: String,
    /// Always `<redacted>`.
    pub password_hash: String,
}

impl UserRecord {
    /// The account's stable identifier.
    #[must_use]
    pub fn id(&self) -> (r: &UserId)
        ensures
            r@ == self@.id,
    {
        &self.id
    }

    /// The account's login name.
    #[must_use]
    pub fn username(&self) -> (r: &str)
        ensures
            r@ == self@.username,
    {
        self.username.as_str()
    }

    /// What may be shown of the account: everything but the password hash.
    pub fn summary(&self) -> (r: UserSummary)
        ensures
            r.id@ == self@.id,
            r.username@ == self@.username,
            r.password_hash@ == "<redacted>"@,
    {
        UserSummary {
            id: self.id.to_string(),
            username: self.username.clone(),
            password_hash: "<redacted>".to_owned(),
        }
    }
}

/// Outcome of a credential check.
///
/// An unknown username and a wrong password both produce [`Self::Rejected`].
/// The distinction is not merely unrendered: it never leaves this module, so no
/// caller is able to leak it.
pub enum Authentication {
    /// The credentials matched the contained account.
    Authenticated(Arc<UserRecord>),
    /// The credentials did not match, for a reason the caller does not learn.
    Rejected,
}

/// Accounts by login name.
pub type Accounts = Map<Seq<char>, AccountView>;

/// Whether credentials match an account.
pub open spec fn are_valid(accounts: Accounts, username: Seq<char>, password: Seq<char>) -> bool {
    accounts.contains_key(username) && is_match(password, accounts[username].password_hash)
}

/// Whether `outcome` is right for the credentials: the account that they match,
/// and no word of why they do not.
pub open spec fn is_authenticated(
    accounts: Accounts,
    username: Seq<char>,
    password: Seq<char>,
    outcome: Authentication,
) -> bool {
    if are_valid(accounts, username, password) {
        outcome matches Authentication::Authenticated(user) && user@ == accounts[username]
    } else {
        outcome is Rejected
    }
}

/// Accounts held in memory, immutable after construction.
pub struct UserDirectory {
    by_username: StringHashMap<Arc<UserRecord>>,
    /// A well-formed hash of a password no account holds, made before any login
    /// is served: making it on demand would cost the first unknown username two
    /// passes of the hash, where a known one costs one.
    decoy: String,
}

impl View for UserDirectory {
    type V = Accounts;

    closed spec fn view(&self) -> Accounts {
        self.by_username@.map_values(|user: Arc<UserRecord>| user@)
    }
}

impl UserDirectory {
    /// Builds a directory containing a single account, hashing `password` on
    /// the way in.
    #[must_use]
    pub fn with_seed_user(username: &str, password: &str) -> (r: UserDirectory)
        requires
            is_hashable(password@),
        ensures
            r@.dom() == set![username@],
            r@[username@].username == username@,
            is_drawn(r@[username@].id),
            is_random_uuid(r@[username@].id),
            is_match(password@, r@[username@].password_hash),
            is_match(DECOY@, r.decoy()),
    {
        let decoy = make_decoy();
        let password_hash = match hash(password) {
            Ok(phc) => phc,
            Err(_) => {
                vstd::pervasive::unreached()
            },
        };
        let record = UserRecord {
            id: UserId::random(),
            username: username.to_owned(),
            password_hash,
        };
        let mut by_username: StringHashMap<Arc<UserRecord>> = StringHashMap::new();
        by_username.insert(username.to_owned(), Arc::new(record));
        let r = UserDirectory { by_username, decoy };
        assert(r@.dom() =~= set![username@]);
        r
    }

    /// The hash that the password of an unknown account is checked against.
    pub closed spec fn decoy(&self) -> Seq<char> {
        self.decoy@
    }

    /// The hash that the password of an unknown account is checked against.
    pub fn decoy_hash(&self) -> (r: &str)
        ensures
            r@ == self.decoy(),
    {
        self.decoy.as_str()
    }

    /// The hash that a password offered for `username` is checked against: the
    /// account's, or the decoy where there is no such account.
    fn hash_for(&self, username: &str) -> (r: &str)
        ensures
            r@ == if self@.contains_key(username@) {
                self@[username@].password_hash
            } else {
                self.decoy()
            },
    {
        match self.by_username.get(username) {
            Some(user) => user.password_hash.as_str(),
            None => self.decoy.as_str(),
        }
    }

    /// Verifies `password` against the account named `username`.
    ///
    /// Performs a full verification whether or not the account exists, so the
    /// two rejection paths are indistinguishable by elapsed time as well as by
    /// response body. Blocking and CPU-bound by design.
    #[must_use]
    pub fn authenticate(&self, username: &str, password: &str) -> (r: Authentication)
        ensures
            is_authenticated(self@, username@, password@, r),
    {
        let matched = verify(password, self.hash_for(username));
        match (self.by_username.get(username), matched) {
            (Some(user), true) => Authentication::Authenticated(user.clone()),
            _ => Authentication::Rejected,
        }
    }
}

impl Default for UserDirectory {
    /// A directory without accounts.
    fn default() -> (r: UserDirectory)
        ensures
            r@ == Accounts::empty(),
            is_match(DECOY@, r.decoy()),
    {
        let r = UserDirectory { by_username: StringHashMap::new(), decoy: make_decoy() };
        assert(r@ =~= Accounts::empty());
        r
    }
}

/// An unknown username is rejected like a wrong password: any password at all
/// against an account that does not exist, and one that does not match against
/// one that does, have the one outcome.
pub proof fn law_rejections_are_alike(
    accounts: Accounts,
    username: Seq<char>,
    password: Seq<char>,
    unknown: Seq<char>,
    guess: Seq<char>,
    first: Authentication,
    second: Authentication,
)
    requires
        accounts.contains_key(username),
        !is_match(password, accounts[username].password_hash),
        is_authenticated(accounts, username, password, first),
        !accounts.contains_key(unknown),
        is_authenticated(accounts, unknown, guess, second),
    ensures
        first == second,
        first is Rejected,
{
}

/// An account is let in with every password that its hash was made from, whatever
/// its name is: the outcome is that account.
pub proof fn law_the_right_password_is_let_in(
    accounts: Accounts,
    username: Seq<char>,
    password: Seq<char>,
    outcome: Authentication,
)
    requires
        is_authenticated(accounts, username, password, outcome),
        accounts.contains_key(username),
        is_checkable(accounts[username].password_hash),
        argon2_check(password, accounts[username].password_hash) == Some(true),
    ensures
        outcome is Authenticated,
        outcome->Authenticated_0@ == accounts[username],
{
}

/// Nobody is let in without an account, or with a password that its hash was not
/// made from.
pub proof fn law_the_wrong_password_is_turned_away(
    accounts: Accounts,
    username: Seq<char>,
    password: Seq<char>,
    outcome: Authentication,
)
    requires
        is_authenticated(accounts, username, password, outcome),
        !accounts.contains_key(username) || argon2_check(
            password,
            accounts[username].password_hash,
        ) != Some(true),
    ensures
        outcome is Rejected,
{
}

/// A directory that was made with one account lets that account in with the
/// password it was made with, and nobody under any other name.
pub proof fn law_a_seeded_account_is_let_in(
    accounts: Accounts,
    username: Seq<char>,
    password: Seq<char>,
    outcome: Authentication,
    other: Seq<char>,
    guess: Seq<char>,
    elsewhere: Authentication,
)
    requires
        accounts.dom() == set![username],
        is_match(password, accounts[username].password_hash),
        is_authenticated(accounts, username, password, outcome),
        other != username,
        is_authenticated(accounts, other, guess, elsewhere),
    ensures
        outcome is Authenticated,
        outcome->Authenticated_0@ == accounts[username],
        elsewhere is Rejected,
{
    assert(accounts.contains_key(username));
    assert(!accounts.contains_key(other));
}

} // verus!
