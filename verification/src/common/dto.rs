//! Request and response bodies.
//!
//! These describe the shape of the JSON on the wire, and the invariants that a
//! stored profile has.

use crate::common::json::{json_quoted, json_string};
use crate::common::reading::{
    lemma_first_member_listed, lemma_next_member_listed, lemma_object_is_read,
    lemma_values_are_whole, member, members_read,
};
use crate::common::text::{
    characters, decimal, decimal_text, is_digit, is_space, lemma_stripped_empty, strip_range,
    trimmed, Edge,
};
use crate::common::user_id::UserId;
use crate::common::version::Version;
use vstd::prelude::*;
use vstd::utf8::encode_utf8;

verus! {

/// Body of `POST /login`.
#[derive(Debug, Clone)]
pub struct LoginRequest {
    /// The account name being claimed.
    pub username: String,
    /// The password offered for that account.
    pub password: String,
}

/// Successful response to `POST /login`.
#[derive(Debug, Clone, PartialEq, Eq)]
pub struct LoginResponse {
    /// Signed bearer token to present on subsequent requests.
    pub access_token: String,
    /// Always `"Bearer"`; present so the response matches OAuth 2.0 habits.
    pub token_type: String,
    /// Seconds remaining until [`Self::access_token`] expires.
    pub expires_in: u64,
}

/// The JSON of a login response.
pub open spec fn login_json(access_token: Seq<char>, token_type: Seq<char>, expires_in: u64) -> Seq<
    char,
> {
    "{\"access_token\":"@ + json_string(access_token) + ",\"token_type\":"@ + json_string(
        token_type,
    ) + ",\"expires_in\":"@ + decimal(expires_in as nat) + "}"@
}

impl LoginResponse {
    /// Renders the response as JSON.
    pub fn to_json(&self) -> (r: String)
        ensures
            r@ == login_json(self.access_token@, self.token_type@, self.expires_in),
    {
        let mut r: String = "{\"access_token\":".to_owned();
        r.append(json_quoted(self.access_token.as_str()).as_str());
        r.append(",\"token_type\":");
        r.append(json_quoted(self.token_type.as_str()).as_str());
        r.append(",\"expires_in\":");
        r.append(decimal_text(self.expires_in).as_str());
        r.append("}");
        r
    }
}

/// Why a profile payload was rejected.
///
/// Field-level, because a client cannot fix "invalid input" but can fix "phone
/// number has too few digits". None of these distinctions are sensitive: the
/// caller supplied the value being complained about.
#[derive(Debug, Clone, Copy, PartialEq, Eq, Structural)]
pub enum InvalidProfile {
    /// Address was empty or only whitespace.
    EmptyAddress,
    /// Address exceeded [`ProfileInput::MAX_ADDRESS_BYTES`].
    AddressTooLong,
    /// Phone number was empty or only whitespace.
    EmptyPhone,
    /// Phone number exceeded [`ProfileInput::MAX_PHONE_BYTES`].
    PhoneTooLong,
    /// Phone number contained something other than digits and `+-() `.
    PhoneCharacters,
    /// Phone number had too few or too many digits to be dialable.
    PhoneDigitCount,
}

impl InvalidProfile {
    /// What to tell whoever sent the payload.
    pub open spec fn message(self) -> Seq<char> {
        match self {
            InvalidProfile::EmptyAddress => "address must not be empty"@,
            InvalidProfile::AddressTooLong => "address must be at most 512 bytes"@,
            InvalidProfile::EmptyPhone => "phone number must not be empty"@,
            InvalidProfile::PhoneTooLong => "phone number must be at most 32 bytes"@,
            InvalidProfile::PhoneCharacters =>
                "phone number may contain only digits and the characters + - ( ) and space"@,
            InvalidProfile::PhoneDigitCount =>
                "phone number must contain between 7 and 15 digits"@,
        }
    }

    /// What to tell whoever sent the payload.
    pub fn to_string(&self) -> (r: String)
        ensures
            r@ == self.message(),
    {
        match self {
            InvalidProfile::EmptyAddress => "address must not be empty".to_owned(),
            InvalidProfile::AddressTooLong => "address must be at most 512 bytes".to_owned(),
            InvalidProfile::EmptyPhone => "phone number must not be empty".to_owned(),
            InvalidProfile::PhoneTooLong => "phone number must be at most 32 bytes".to_owned(),
            InvalidProfile::PhoneCharacters => "phone number may contain only digits and the characters + - ( ) and space".to_owned(),
            InvalidProfile::PhoneDigitCount => "phone number must contain between 7 and 15 digits".to_owned(),
        }
    }
}

/// Body of `POST /profile` and `PUT /profile`.
///
/// There is deliberately no user id field: the caller never states whose
/// profile is being written. That comes from the verified token, which is why
/// an authenticated user cannot overwrite someone else's profile.
#[derive(Debug, PartialEq, Eq)]
pub struct ProfileInput {
    /// Postal address.
    pub address: String,
    /// Telephone number.
    pub phone_number: String,
}

/// What a profile payload says.
#[verifier::ext_equal]
pub struct InputView {
    /// Postal address.
    pub address: Seq<char>,
    /// Telephone number.
    pub phone_number: Seq<char>,
}

impl View for ProfileInput {
    type V = InputView;

    open spec fn view(&self) -> InputView {
        InputView { address: self.address@, phone_number: self.phone_number@ }
    }
}

impl Clone for ProfileInput {
    fn clone(&self) -> (r: ProfileInput)
        ensures
            r@ == self@,
    {
        ProfileInput { address: self.address.clone(), phone_number: self.phone_number.clone() }
    }
}

/// Whether `c` may stand in a phone number.
pub open spec fn is_phone_char(c: char) -> bool {
    is_digit(c) || c == '+' || c == '-' || c == '(' || c == ')' || c == ' '
}

/// How many digits `s` holds.
pub open spec fn digit_count(s: Seq<char>) -> nat
    decreases s.len(),
{
    if s.len() == 0 {
        0
    } else {
        digit_count(s.drop_last()) + if is_digit(s.last()) {
            1nat
        } else {
            0nat
        }
    }
}

impl InputView {
    /// The first invariant that the payload violates, if it violates one.
    pub open spec fn flaw(self) -> Option<InvalidProfile> {
        let phone = self.phone_number;
        if encode_utf8(self.address).len() > ProfileInput::MAX_ADDRESS_BYTES {
            Some(InvalidProfile::AddressTooLong)
        } else if trimmed(self.address).len() == 0 {
            Some(InvalidProfile::EmptyAddress)
        } else if encode_utf8(self.phone_number).len() > ProfileInput::MAX_PHONE_BYTES {
            Some(InvalidProfile::PhoneTooLong)
        } else if trimmed(phone).len() == 0 {
            Some(InvalidProfile::EmptyPhone)
        } else if exists|i: int| 0 <= i < phone.len() && !is_phone_char(#[trigger] phone[i]) {
            Some(InvalidProfile::PhoneCharacters)
        } else if !(ProfileInput::MIN_PHONE_DIGITS <= digit_count(phone)
            <= ProfileInput::MAX_PHONE_DIGITS) {
            Some(InvalidProfile::PhoneDigitCount)
        } else {
            None
        }
    }
}

impl ProfileInput {
    /// Longest accepted address. Generous for a postal address, and bounded so
    /// a client cannot pin megabytes of resident memory per stored profile.
    pub const MAX_ADDRESS_BYTES: usize = 512;

    /// Longest accepted phone number, in bytes.
    pub const MAX_PHONE_BYTES: usize = 32;

    /// Fewest digits in a dialable number (shortest national numbers).
    pub const MIN_PHONE_DIGITS: usize = 7;

    /// Most digits in a dialable number, per E.164.
    pub const MAX_PHONE_DIGITS: usize = 15;

    /// Checks the payload against the stored-field invariants, and returns the
    /// first one it violates.
    ///
    /// Lives here rather than in the profile service so the gateway could
    /// reject a bad payload before spending an upstream round-trip on it, and
    /// so both sides can never disagree about what is storable.
    pub fn validate(&self) -> (r: Result<(), InvalidProfile>)
        ensures
            match r {
                Ok(()) => self@.flaw() is None,
                Err(reason) => self@.flaw() == Some(reason),
            },
    {
        if self.address.as_str().as_bytes().len() > Self::MAX_ADDRESS_BYTES {
            return Err(InvalidProfile::AddressTooLong);
        }
        let address = characters(self.address.as_str());
        assert(address@.subrange(0, address@.len() as int) == address@);
        let (from, to) = strip_range(&address, 0, address.len(), Edge::Space);
        if from == to {
            return Err(InvalidProfile::EmptyAddress);
        }
        if self.phone_number.as_str().as_bytes().len() > Self::MAX_PHONE_BYTES {
            return Err(InvalidProfile::PhoneTooLong);
        }
        let number = characters(self.phone_number.as_str());
        assert(number@.subrange(0, number@.len() as int) == number@);
        let (from, to) = strip_range(&number, 0, number.len(), Edge::Space);
        let ghost phone = number@;
        if from == to {
            return Err(InvalidProfile::EmptyPhone);
        }
        let mut digits: usize = 0;
        let mut at: usize = 0;
        while at < number.len()
            invariant
                at <= number.len(),
                phone == number@,
                phone == self.phone_number@,
                forall|i: int| 0 <= i < at ==> is_phone_char(phone[i]),
                digits == digit_count(phone.take(at as int)),
                digits <= at,
                self@.flaw() is Some ==> self@.flaw() == Some(InvalidProfile::PhoneCharacters)
                    || self@.flaw() == Some(InvalidProfile::PhoneDigitCount),
                (exists|i: int| 0 <= i < phone.len() && !is_phone_char(#[trigger] phone[i]))
                    ==> self@.flaw() == Some(InvalidProfile::PhoneCharacters),
            decreases number.len() - at,
        {
            let c = number[at];
            assert(c == phone[at as int]);
            assert(phone.take(at + 1).drop_last() == phone.take(at as int));
            let digit = '0' <= c && c <= '9';
            if !(digit || c == '+' || c == '-' || c == '(' || c == ')' || c == ' ') {
                return Err(InvalidProfile::PhoneCharacters);
            }
            if digit {
                digits = digits + 1;
            }
            at = at + 1;
        }
        assert(phone.take(at as int) == phone);
        if digits < Self::MIN_PHONE_DIGITS || Self::MAX_PHONE_DIGITS < digits {
            return Err(InvalidProfile::PhoneDigitCount);
        }
        Ok(())
    }
}

/// A field that holds nothing but white space is refused as empty, and only
/// such a field: whatever else it holds, a payload with a blank address of
/// allowed length has that flaw, and one with a sound address and a blank phone
/// number of allowed length has the other.
pub proof fn law_blank_fields_are_empty(input: InputView)
    ensures
        encode_utf8(input.address).len() <= ProfileInput::MAX_ADDRESS_BYTES ==> (input.flaw()
            == Some(InvalidProfile::EmptyAddress) <==> forall|i: int|
            0 <= i < input.address.len() ==> is_space(#[trigger] input.address[i])),
        input.flaw() == Some(InvalidProfile::EmptyPhone) ==> forall|i: int|
            0 <= i < input.phone_number.len() ==> is_space(#[trigger] input.phone_number[i]),
{
    lemma_stripped_empty(input.address, Edge::Space);
    lemma_stripped_empty(input.phone_number, Edge::Space);
}

/// A sound payload's phone number can be dialled: between seven and fifteen
/// digits, and nothing but digits, signs and spaces.
pub proof fn law_sound_numbers_are_dialable(input: InputView)
    requires
        input.flaw() is None,
    ensures
        7 <= digit_count(input.phone_number) <= 15,
        forall|i: int|
            0 <= i < input.phone_number.len() ==> is_phone_char(#[trigger] input.phone_number[i]),
{
}

/// A stored profile as returned to the client.
#[derive(Debug, PartialEq, Eq)]
pub struct Profile {
    /// Owner of this profile.
    pub user_id: UserId,
    /// Free-form postal address.
    pub address: String,
    /// Free-form telephone number.
    pub phone_number: String,
    /// Revision counter, echoed as an `ETag` and required back in `If-Match`
    /// on update. It is how a lost update is detected.
    pub version: Version,
}

/// What a stored profile says.
#[verifier::ext_equal]
pub struct ProfileView {
    /// Owner of the profile.
    pub user_id: Seq<char>,
    /// Postal address.
    pub address: Seq<char>,
    /// Telephone number.
    pub phone_number: Seq<char>,
    /// Revision counter.
    pub version: u64,
}

impl View for Profile {
    type V = ProfileView;

    open spec fn view(&self) -> ProfileView {
        ProfileView {
            user_id: self.user_id@,
            address: self.address@,
            phone_number: self.phone_number@,
            version: self.version.0,
        }
    }
}

impl Clone for Profile {
    fn clone(&self) -> (r: Profile)
        ensures
            r@ == self@,
    {
        Profile {
            user_id: self.user_id.clone(),
            address: self.address.clone(),
            phone_number: self.phone_number.clone(),
            version: self.version,
        }
    }
}

impl ProfileView {
    /// The JSON of the profile.
    pub open spec fn json(self) -> Seq<char> {
        "{\"user_id\":"@ + json_string(self.user_id) + ",\"address\":"@ + json_string(self.address)
            + ",\"phone_number\":"@ + json_string(self.phone_number) + ",\"version\":"@ + decimal(
            self.version as nat,
        ) + "}"@
    }
}

impl Profile {
    /// Renders the profile as JSON.
    pub fn to_json(&self) -> (r: String)
        ensures
            r@ == self@.json(),
    {
        let mut r: String = "{\"user_id\":".to_owned();
        r.append(json_quoted(self.user_id.as_str()).as_str());
        r.append(",\"address\":");
        r.append(json_quoted(self.address.as_str()).as_str());
        r.append(",\"phone_number\":");
        r.append(json_quoted(self.phone_number.as_str()).as_str());
        r.append(",\"version\":");
        r.append(decimal_text(self.version.get()).as_str());
        r.append("}");
        r
    }
}

/// Uniform error envelope.
///
/// Every non-2xx response from either service has this shape. It matters most
/// for login, where the body must be byte-identical whether the username was
/// unknown or the password was wrong.
#[derive(Debug, Clone, PartialEq, Eq)]
pub struct ErrorResponse {
    /// Stable machine-readable code, for example `invalid_credentials`.
    pub error: String,
    /// Human-readable text, chosen so it reveals nothing the code does not.
    pub message: String,
}

/// The JSON of an error envelope.
pub open spec fn error_json(error: Seq<char>, message: Seq<char>) -> Seq<char> {
    "{\"error\":"@ + json_string(error) + ",\"message\":"@ + json_string(message) + "}"@
}

impl ErrorResponse {
    /// Builds a response from a code and a message.
    #[must_use]
    pub fn new(error: &str, message: &str) -> (r: ErrorResponse)
        ensures
            r.error@ == error@,
            r.message@ == message@,
    {
        ErrorResponse { error: error.to_owned(), message: message.to_owned() }
    }

    /// Renders the envelope as JSON.
    pub fn to_json(&self) -> (r: String)
        ensures
            r@ == error_json(self.error@, self.message@),
    {
        let mut r: String = "{\"error\":".to_owned();
        r.append(json_quoted(self.error.as_str()).as_str());
        r.append(",\"message\":");
        r.append(json_quoted(self.message.as_str()).as_str());
        r.append("}");
        r
    }
}

/// Which payloads are sound, said of their characters: an address of at most 512
/// bytes that is not blank, and a phone number of at most 32 bytes that is digits,
/// plus, minus, brackets and spaces alone, seven to fifteen of them digits. Each
/// flaw is told exactly where it is the first that a payload has.
pub proof fn law_flaws_are_told_in_order(input: InputView)
    ensures
        ({
            let address = input.address;
            let phone = input.phone_number;
            let long_address = encode_utf8(address).len() > 512;
            let blank_address = forall|i: int|
                0 <= i < address.len() ==> is_space(#[trigger] address[i]);
            let long_phone = encode_utf8(phone).len() > 32;
            let blank_phone = forall|i: int| 0 <= i < phone.len() ==> is_space(#[trigger] phone[i]);
            let odd_phone = exists|i: int|
                0 <= i < phone.len() && !('0' <= #[trigger] phone[i] <= '9' || phone[i] == '+'
                    || phone[i] == '-' || phone[i] == '(' || phone[i] == ')' || phone[i] == ' ');
            let digits = phone.filter(|c: char| '0' <= c <= '9').len();
            input.flaw() == if long_address {
                Some(InvalidProfile::AddressTooLong)
            } else if blank_address {
                Some(InvalidProfile::EmptyAddress)
            } else if long_phone {
                Some(InvalidProfile::PhoneTooLong)
            } else if blank_phone {
                Some(InvalidProfile::EmptyPhone)
            } else if odd_phone {
                Some(InvalidProfile::PhoneCharacters)
            } else if digits < 7 || digits > 15 {
                Some(InvalidProfile::PhoneDigitCount)
            } else {
                None
            }
        }),
{
    let address = input.address;
    let phone = input.phone_number;
    lemma_stripped_empty(address, Edge::Space);
    lemma_stripped_empty(phone, Edge::Space);
    lemma_digit_count(phone);
    if forall|i: int| 0 <= i < address.len() ==> is_space(#[trigger] address[i]) {
        assert forall|i: int| 0 <= i < address.len() implies Edge::Space.strips(address[i]) by {}
    }
    if forall|i: int| 0 <= i < phone.len() ==> is_space(#[trigger] phone[i]) {
        assert forall|i: int| 0 <= i < phone.len() implies Edge::Space.strips(phone[i]) by {}
    }
    if exists|i: int| 0 <= i < phone.len() && !is_phone_char(#[trigger] phone[i]) {
        let i = choose|i: int| 0 <= i < phone.len() && !is_phone_char(#[trigger] phone[i]);
        assert(!('0' <= phone[i] <= '9' || phone[i] == '+' || phone[i] == '-' || phone[i] == '('
            || phone[i] == ')' || phone[i] == ' '));
    } else {
        assert forall|i: int| 0 <= i < phone.len() implies ('0' <= #[trigger] phone[i] <= '9'
            || phone[i] == '+' || phone[i] == '-' || phone[i] == '(' || phone[i] == ')' || phone[i]
            == ' ') by {
            assert(is_phone_char(phone[i]));
        }
    }
}

/// The digits are counted one by one.
proof fn lemma_digit_count(s: Seq<char>)
    ensures
        digit_count(s) == s.filter(|c: char| '0' <= c <= '9').len(),
    decreases s.len(),
{
    reveal(Seq::filter);
    if s.len() > 0 {
        lemma_digit_count(s.drop_last());
    }
}

/// Read as JSON, a login response is an object of three members: the token, its
/// type and its lifetime, each under its name.
pub proof fn law_login_response_reads_back(
    access_token: Seq<char>,
    token_type: Seq<char>,
    expires_in: u64,
)
    ensures
        members_read(login_json(access_token, token_type, expires_in)) == Some(
            seq![
                member("access_token"@, json_string(access_token)),
                member("token_type"@, json_string(token_type)),
                member("expires_in"@, decimal(expires_in as nat)),
            ],
        ),
{
    reveal_strlit("access_token");
    reveal_strlit("token_type");
    reveal_strlit("expires_in");
    reveal_strlit("{\"access_token\":");
    reveal_strlit(",\"token_type\":");
    reveal_strlit(",\"expires_in\":");
    reveal_strlit("}");
    lemma_values_are_whole(access_token, expires_in);
    lemma_values_are_whole(token_type, expires_in);
    let first = member("access_token"@, json_string(access_token));
    let second = member("token_type"@, json_string(token_type));
    let third = member("expires_in"@, decimal(expires_in as nat));
    lemma_first_member_listed("access_token"@, json_string(access_token));
    lemma_next_member_listed(first, seq![first], "token_type"@, json_string(token_type));
    let two = first + seq![','] + second;
    assert(seq![first].push(second) =~= seq![first, second]);
    lemma_next_member_listed(two, seq![first, second], "expires_in"@, decimal(expires_in as nat));
    let all = two + seq![','] + third;
    assert(seq![first, second].push(third) =~= seq![first, second, third]);
    assert(login_json(access_token, token_type, expires_in) =~= seq!['{'] + all + seq!['}']);
    lemma_object_is_read(all);
}

/// Read as JSON, a profile is an object of four members: its owner, address, phone
/// number and version, each under its name.
pub proof fn law_profile_reads_back(profile: ProfileView)
    ensures
        members_read(profile.json()) == Some(
            seq![
                member("user_id"@, json_string(profile.user_id)),
                member("address"@, json_string(profile.address)),
                member("phone_number"@, json_string(profile.phone_number)),
                member("version"@, decimal(profile.version as nat)),
            ],
        ),
{
    reveal_strlit("user_id");
    reveal_strlit("address");
    reveal_strlit("phone_number");
    reveal_strlit("version");
    reveal_strlit("{\"user_id\":");
    reveal_strlit(",\"address\":");
    reveal_strlit(",\"phone_number\":");
    reveal_strlit(",\"version\":");
    reveal_strlit("}");
    lemma_values_are_whole(profile.user_id, profile.version);
    lemma_values_are_whole(profile.address, profile.version);
    lemma_values_are_whole(profile.phone_number, profile.version);
    let owner = member("user_id"@, json_string(profile.user_id));
    let address = member("address"@, json_string(profile.address));
    let phone = member("phone_number"@, json_string(profile.phone_number));
    let version = member("version"@, decimal(profile.version as nat));
    lemma_first_member_listed("user_id"@, json_string(profile.user_id));
    lemma_next_member_listed(owner, seq![owner], "address"@, json_string(profile.address));
    let two = owner + seq![','] + address;
    assert(seq![owner].push(address) =~= seq![owner, address]);
    lemma_next_member_listed(
        two,
        seq![owner, address],
        "phone_number"@,
        json_string(profile.phone_number),
    );
    let three = two + seq![','] + phone;
    assert(seq![owner, address].push(phone) =~= seq![owner, address, phone]);
    lemma_next_member_listed(
        three,
        seq![owner, address, phone],
        "version"@,
        decimal(profile.version as nat),
    );
    let all = three + seq![','] + version;
    assert(seq![owner, address, phone].push(version) =~= seq![owner, address, phone, version]);
    assert(profile.json() =~= seq!['{'] + all + seq!['}']);
    lemma_object_is_read(all);
}

/// Read as JSON, an error is an object of two members: its code and its message.
pub proof fn law_error_reads_back(error: Seq<char>, message: Seq<char>)
    ensures
        members_read(error_json(error, message)) == Some(
            seq![
                member("error"@, json_string(error)),
                member("message"@, json_string(message)),
            ],
        ),
{
    reveal_strlit("error");
    reveal_strlit("message");
    reveal_strlit("{\"error\":");
    reveal_strlit(",\"message\":");
    reveal_strlit("}");
    lemma_values_are_whole(error, 0);
    lemma_values_are_whole(message, 0);
    let code = member("error"@, json_string(error));
    let told = member("message"@, json_string(message));
    lemma_first_member_listed("error"@, json_string(error));
    lemma_next_member_listed(code, seq![code], "message"@, json_string(message));
    let all = code + seq![','] + told;
    assert(seq![code].push(told) =~= seq![code, told]);
    assert(error_json(error, message) =~= seq!['{'] + all + seq!['}']);
    lemma_object_is_read(all);
}

/// Payloads and profiles are seen whole.
pub proof fn law_payloads_are_seen_whole(input: ProfileInput, profile: Profile)
    ensures
        input@.address == input.address@,
        input@.phone_number == input.phone_number@,
        profile@.user_id == profile.user_id@,
        profile@.address == profile.address@,
        profile@.phone_number == profile.phone_number@,
        profile@.version == profile.version.0,
{
}

} // verus!
