//! Argon2id hashing, and the decoy hash that keeps login failures uniform.

use crate::common::text::{characters, is_digit};
use vstd::prelude::*;
use vstd::utf8::encode_utf8;

verus! {

/// Why a password could not be hashed. Opaque: it is never told to anyone.
#[verifier::external_type_specification]
#[verifier::external_body]
pub struct ExHashError(password_hash::Error);

/// The most bytes of a password that Argon2 takes.
pub const MAX_PASSWORD_BYTES: u64 = 0xFFFF_FFFF;

/// Whether a password can be hashed.
pub open spec fn is_hashable(password: Seq<char>) -> bool {
    encode_utf8(password).len() <= MAX_PASSWORD_BYTES
}

/// Whether a password can be hashed.
pub fn hashable(password: &str) -> (r: bool)
    ensures
        r == is_hashable(password@),
{
    password.as_bytes().len() as u64 <= MAX_PASSWORD_BYTES
}

/// How many digits a degree of parallelism has at least that Argon2 cannot
/// count with.
pub const LONG_PARALLELISM: usize = 9;

/// Whether a degree of parallelism of so many digits is written down at `at`.
pub open spec fn is_overlong_at(phc: Seq<char>, at: int) -> bool {
    &&& 0 <= at
    &&& at + 2 + LONG_PARALLELISM <= phc.len()
    &&& phc[at] == 'p'
    &&& phc[at + 1] == '='
    &&& forall|i: int| at + 2 <= i < at + 2 + LONG_PARALLELISM ==> is_digit(#[trigger] phc[i])
}

/// Whether a PHC string can be checked against: it names no degree of
/// parallelism that Argon2 cannot count with.
pub open spec fn is_checkable(phc: Seq<char>) -> bool {
    forall|at: int| !#[trigger] is_overlong_at(phc, at)
}

/// Whether a PHC string can be checked against.
fn checkable(phc: &str) -> (r: bool)
    ensures
        r == is_checkable(phc@),
{
    let chars = characters(phc);
    let mut at: usize = 0;
    while at < chars.len()
        invariant
            at <= chars.len(),
            chars@ == phc@,
            forall|i: int| 0 <= i < at ==> !#[trigger] is_overlong_at(phc@, i),
        decreases chars.len() - at,
    {
        if chars[at] == 'p' && chars.len() - at >= 2 + LONG_PARALLELISM && chars[at + 1] == '=' {
            let mut digits: usize = 0;
            while digits < LONG_PARALLELISM && '0' <= chars[at + 2 + digits] && chars[at + 2
                + digits] <= '9'
                invariant
                    digits <= LONG_PARALLELISM,
                    at + 2 + LONG_PARALLELISM <= chars.len(),
                    forall|i: int| at + 2 <= i < at + 2 + digits ==> is_digit(#[trigger] chars@[i]),
                decreases LONG_PARALLELISM - digits,
            {
                digits = digits + 1;
            }
            if digits == LONG_PARALLELISM {
                assert(is_overlong_at(phc@, at as int));
                return false;
            }
            assert(!is_digit(chars@[at + 2 + digits]));
        }
        assert(!is_overlong_at(phc@, at as int));
        at = at + 1;
    }
    true
}

/// Whether the password is the one that was hashed into the PHC string `phc`;
/// nothing where `phc` is no PHC string.
pub uninterp spec fn argon2_check(password: Seq<char>, phc: Seq<char>) -> Option<bool>;

/// Hashes `password` into a PHC string with a fresh random salt.
///
/// Calls `argon2::Argon2::hash_password` with the default parameters (m = 19456
/// KiB, t = 2, p = 1), which track the OWASP recommendation for interactive
/// logins, and renders the hash as a PHC string. Nothing is claimed of the string
/// but that it can be checked against (it says `p=1$`, and no other `=` stands
/// behind that), that checking the same password against it succeeds, and that
/// there is one for every password of at most 2^32 - 1 bytes.
#[verifier::external_body]
pub(crate) fn hash(password: &str) -> (r: Result<String, password_hash::Error>)
    ensures
        is_hashable(password@) ==> r is Ok,
        r matches Ok(phc) ==> is_checkable(phc@) && argon2_check(password@, phc@) == Some(true),
{
    let salt = password_hash::SaltString::generate(&mut password_hash::rand_core::OsRng);
    let hasher = argon2::Argon2::default();
    password_hash::PasswordHasher::hash_password(&hasher, password.as_bytes(), &salt).map(
        |hash| hash.to_string(),
    )
}

/// Calls `password_hash::PasswordHash::new` on the PHC string and
/// `argon2::Argon2::verify_password` on what it parsed. The claim is that the
/// outcome depends on the arguments alone. The parameters that the string names
/// are taken as they are; a degree of parallelism of 2^29 or more, which has nine
/// digits, overflows where they are checked, so such strings are left out.
#[verifier::external_body]
fn argon2_verify(password: &str, phc: &str) -> (r: Option<bool>)
    requires
        is_checkable(phc@),
    ensures
        r == argon2_check(password@, phc@),
{
    let expected = password_hash::PasswordHash::new(phc).ok()?;
    let verifier = argon2::Argon2::default();
    Some(
        password_hash::PasswordVerifier::verify_password(
            &verifier,
            password.as_bytes(),
            &expected,
        ).is_ok(),
    )
}

/// Whether `password` is the one that `phc` was made from; nothing matches a
/// string that cannot be checked against.
pub open spec fn is_match(password: Seq<char>, phc: Seq<char>) -> bool {
    is_checkable(phc) && argon2_check(password, phc) == Some(true)
}

/// What a check against a stored hash says, where `checked` is what came of it.
///
/// A malformed hash is a data-integrity fault rather than a client error, so it
/// is reported as a plain mismatch instead of being propagated where it could
/// be probed.
pub fn verdict_of(checked: Option<bool>) -> (r: bool)
    ensures
        r == (checked == Some(true)),
{
    match checked {
        Some(matched) => matched,
        None => false,
    }
}

/// Checks `password` against the PHC string `phc`.
pub fn verify(password: &str, phc: &str) -> (r: bool)
    ensures
        r == is_match(password@, phc@),
{
    if checkable(phc) {
        verdict_of(argon2_verify(password, phc))
    } else {
        verdict_of(None)
    }
}

/// A password that no account holds.
pub const DECOY: &'static str = "\0unassigned\0";

/// Makes a well-formed hash of a password no account holds.
///
/// Verifying against it costs exactly what verifying a real hash costs, which
/// is what keeps an unknown username indistinguishable from a wrong password.
/// Each one is salted anew, so it is made once and kept.
pub(crate) fn make_decoy() -> (r: String)
    ensures
        is_match(DECOY@, r@),
{
    proof {
        reveal_strlit("\0unassigned\0");
        vstd::utf8::is_ascii_chars_encode_utf8(DECOY@);
    }
    match hash(DECOY) {
        Ok(phc) => phc,
        Err(_) => {
            vstd::pervasive::unreached()
        },
    }
}

/// A password matches exactly where the check of it says so, against a string that
/// can be checked: one that names no degree of parallelism of nine digits or
/// more. Which passwords can be hashed is a matter of their length alone.
pub proof fn law_matches_are_what_the_check_says(password: Seq<char>, phc: Seq<char>)
    ensures
        is_match(password, phc) <==> is_checkable(phc) && argon2_check(password, phc) == Some(true),
        is_checkable(phc) <==> !(exists|at: int|
            #![trigger phc[at]]
            0 <= at && at + 11 <= phc.len() && phc[at] == 'p' && phc[at + 1] == '=' && (forall|
                i: int,
            |
                at + 2 <= i < at + 11 ==> '0' <= #[trigger] phc[i] <= '9')),
        is_hashable(password) <==> encode_utf8(password).len() <= 4_294_967_295,
{
    if !is_checkable(phc) {
        let at = choose|at: int| #[trigger] is_overlong_at(phc, at);
        assert(phc[at] == 'p');
        assert forall|i: int| at + 2 <= i < at + 11 implies '0' <= #[trigger] phc[i] <= '9' by {
            assert(is_digit(phc[i]));
        }
    }
    if exists|at: int|
        #![trigger phc[at]]
        0 <= at && at + 11 <= phc.len() && phc[at] == 'p' && phc[at + 1] == '=' && (forall|i: int|
            at + 2 <= i < at + 11 ==> '0' <= #[trigger] phc[i] <= '9') {
        let at = choose|at: int|
            #![trigger phc[at]]
            0 <= at && at + 11 <= phc.len() && phc[at] == 'p' && phc[at + 1] == '=' && (forall|
                i: int,
            |
                at + 2 <= i < at + 11 ==> '0' <= #[trigger] phc[i] <= '9');
        assert(is_overlong_at(phc, at));
    }
}

} // verus!
