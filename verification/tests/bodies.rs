//! Request and response bodies.

use knova::common::dto::{ErrorResponse, InvalidProfile, LoginResponse, Profile, ProfileInput};
use knova::common::{UserId, Version};
use knova::profile::Revision;

fn input(address: &str, phone: &str) -> ProfileInput {
    ProfileInput {
        address: address.to_owned(),
        phone_number: phone.to_owned(),
    }
}

#[test]
fn accepts_ordinary_values() {
    assert_eq!(input("1 Main St", "+1 (555) 010-0123").validate(), Ok(()));
}

#[test]
fn rejects_blank_fields() {
    assert_eq!(
        input("   ", "5550100").validate(),
        Err(InvalidProfile::EmptyAddress)
    );
    assert_eq!(
        input("1 Main St", "  ").validate(),
        Err(InvalidProfile::EmptyPhone)
    );
}

#[test]
fn rejects_oversized_fields() {
    let long = "x".repeat(ProfileInput::MAX_ADDRESS_BYTES + 1);
    assert_eq!(
        input(&long, "5550100").validate(),
        Err(InvalidProfile::AddressTooLong)
    );
}

#[test]
fn rejects_undialable_numbers() {
    assert_eq!(
        input("1 Main St", "555-01").validate(),
        Err(InvalidProfile::PhoneDigitCount)
    );
    assert_eq!(
        input("1 Main St", "555-0100 ext. 12").validate(),
        Err(InvalidProfile::PhoneCharacters)
    );
}

#[test]
fn limits_are_counted_in_bytes() {
    let longest = "x".repeat(512);
    assert_eq!(input(&longest, "5550100").validate(), Ok(()));
    let accented = "é".repeat(257);
    assert_eq!(
        input(&accented, "5550100").validate(),
        Err(InvalidProfile::AddressTooLong)
    );
    assert_eq!(input(&"é".repeat(256), "5550100").validate(), Ok(()));
    let padded = format!("5550100{}", " ".repeat(25));
    assert_eq!(padded.len(), 32);
    assert_eq!(input("a", &padded).validate(), Ok(()));
    assert_eq!(
        input("a", &format!("{padded} ")).validate(),
        Err(InvalidProfile::PhoneTooLong)
    );
    assert_eq!(input("a", "123456").validate(), Err(InvalidProfile::PhoneDigitCount));
    assert_eq!(input("a", "1234567").validate(), Ok(()));
    assert_eq!(input("a", "123456789012345").validate(), Ok(()));
    assert_eq!(
        input("a", "1234567890123456").validate(),
        Err(InvalidProfile::PhoneDigitCount)
    );
}

#[test]
fn the_first_flaw_is_reported() {
    let long = " ".repeat(513);
    assert_eq!(input(&long, "").validate(), Err(InvalidProfile::AddressTooLong));
    assert_eq!(input("", "").validate(), Err(InvalidProfile::EmptyAddress));
    assert_eq!(
        input("a", &"x".repeat(33)).validate(),
        Err(InvalidProfile::PhoneTooLong)
    );
    assert_eq!(input("a", "x").validate(), Err(InvalidProfile::PhoneCharacters));
    assert_eq!(
        input("a", "٣٣٣٣٣٣٣").validate(),
        Err(InvalidProfile::PhoneCharacters)
    );
}

#[test]
fn white_space_round_a_number_is_no_part_of_it_but_the_space() {
    assert_eq!(input("1 Main St", "  5550100 ").validate(), Ok(()));
    for padded in ["5550100\n", "\t5550100", "5550100\u{a0}", "\u{3000}5550100"] {
        assert_eq!(
            input("1 Main St", padded).validate(),
            Err(InvalidProfile::PhoneCharacters),
            "{padded:?}"
        );
    }
    assert_eq!(
        input("1 Main St", "\n\t").validate(),
        Err(InvalidProfile::EmptyPhone)
    );
}

#[test]
fn flaws_name_the_field() {
    let messages = [
        (InvalidProfile::EmptyAddress, "address must not be empty"),
        (
            InvalidProfile::AddressTooLong,
            "address must be at most 512 bytes",
        ),
        (InvalidProfile::EmptyPhone, "phone number must not be empty"),
        (
            InvalidProfile::PhoneTooLong,
            "phone number must be at most 32 bytes",
        ),
        (
            InvalidProfile::PhoneCharacters,
            "phone number may contain only digits and the characters + - ( ) and space",
        ),
        (
            InvalidProfile::PhoneDigitCount,
            "phone number must contain between 7 and 15 digits",
        ),
    ];
    for (flaw, message) in messages {
        assert_eq!(flaw.to_string(), message);
    }
}

#[test]
fn strings_are_escaped_as_json_asks() {
    let error = ErrorResponse::new("\"\\/", "\u{8}\t\n\u{c}\r\0\u{1f}\u{b}\u{7f} é😀");
    assert_eq!(
        error.to_json(),
        "{\"error\":\"\\\"\\\\/\",\"message\":\"\\b\\t\\n\\f\\r\\u0000\\u001f\\u000b\u{7f} é😀\"}"
    );
}

#[test]
fn bodies_are_the_json_of_their_fields() {
    let profile = Profile {
        user_id: UserId::from("u"),
        address: "1 \"Main\" St\n".to_owned(),
        phone_number: "5550100".to_owned(),
        version: Version::from_counter(3),
    };
    assert_eq!(
        profile.to_json(),
        r#"{"user_id":"u","address":"1 \"Main\" St\n","phone_number":"5550100","version":3}"#
    );
    let parsed: serde_json::Value = serde_json::from_str(&profile.to_json()).expect("JSON");
    assert_eq!(parsed["address"].as_str(), Some("1 \"Main\" St\n"));
    assert_eq!(parsed["version"].as_u64(), Some(3));

    let revision = Revision {
        version: Version::initial(),
        address: "a".to_owned(),
        phone_number: "p".to_owned(),
        recorded_at_ms: 42,
    };
    assert_eq!(
        revision.to_json(),
        r#"{"version":1,"address":"a","phone_number":"p","recorded_at_ms":42}"#
    );

    let granted = LoginResponse {
        access_token: "t".to_owned(),
        token_type: "Bearer".to_owned(),
        expires_in: 900,
    };
    assert_eq!(
        granted.to_json(),
        r#"{"access_token":"t","token_type":"Bearer","expires_in":900}"#
    );

    let error = ErrorResponse::new("code", "words");
    assert_eq!(error.error, "code");
    assert_eq!(error.message, "words");
    assert_eq!(error.to_json(), r#"{"error":"code","message":"words"}"#);
}
