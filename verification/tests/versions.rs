//! Versions, entity tags and identifiers.

use knova::common::text::{decimal_text, same_text_ignoring_case, space, split_once, trim};
use knova::common::{InvalidVersion, UserId, Version};

/// Convenience for tests, where overflow is not in question.
fn bump(version: Version, times: usize) -> Version {
    (0..times).fold(version, |current, _| {
        current
            .checked_next()
            .expect("test versions do not overflow")
    })
}

#[test]
fn display_and_parse_are_inverses() {
    let version = bump(Version::initial(), 2);
    assert_eq!(version.to_string(), r#""3""#);
    assert_eq!(version.to_string().parse(), Ok(version));
}

#[test]
fn bare_digits_are_accepted() {
    assert_eq!("3".parse(), Ok(bump(Version::initial(), 2)));
}

#[test]
fn the_counter_refuses_to_wrap() {
    let last: Version = u64::MAX.to_string().parse().expect("parses");
    assert_eq!(last.checked_next(), None);
}

#[test]
fn wildcard_is_rejected() {
    assert_eq!("*".parse::<Version>(), Err(InvalidVersion));
}

#[test]
fn every_version_reads_back() {
    for counter in [0, 1, 9, 10, 99, 100, 12_345, u64::MAX - 1, u64::MAX] {
        let version = Version::from_counter(counter);
        assert_eq!(version.get(), counter);
        assert_eq!(version.to_string(), format!("\"{counter}\""));
        assert_eq!(version.to_string().parse(), Ok(version));
        assert_eq!(decimal_text(counter), counter.to_string());
    }
}

#[test]
fn padding_and_signs_are_read_as_numbers_are() {
    let cases = [
        (" \"7\"\t", Some(7)),
        ("\"\"7\"\"", Some(7)),
        ("+7", Some(7)),
        ("007", Some(7)),
        ("18446744073709551615", Some(u64::MAX)),
        ("18446744073709551616", None),
        ("", None),
        ("\"\"", None),
        ("+", None),
        ("-7", None),
        ("\" 7 \"", None),
        ("7a", None),
        ("W/\"7\"", None),
        ("\u{a0}7\u{2003}", Some(7)),
    ];
    for (text, expected) in cases {
        let expected = expected.map(Version::from_counter).ok_or(InvalidVersion);
        assert_eq!(text.parse::<Version>(), expected, "{text:?}");
        let standard = text.trim().trim_matches('"').parse::<u64>();
        assert_eq!(
            standard.map(Version::from_counter).map_err(|_| InvalidVersion),
            expected
        );
    }
}

#[test]
fn versions_are_ordered_as_their_counters() {
    let counters = [0, 1, 2, 9, 10, u64::MAX];
    for n in counters {
        let version = Version::from_counter(n);
        assert_eq!(version.get(), n);
        assert_eq!(Version::from_counter(version.get()), version);
        for m in counters {
            let other = Version::from_counter(m);
            assert_eq!(version < other, n < m);
            assert_eq!(version.partial_cmp(&other), n.partial_cmp(&m));
            assert_eq!(version.cmp(&other), n.cmp(&m));
        }
    }
    assert_eq!(Version::initial(), Version::from_counter(1));
}

#[test]
fn an_invalid_version_says_what_was_expected() {
    assert_eq!(
        InvalidVersion.to_string(),
        "expected an entity tag such as \"3\""
    );
}

#[test]
fn white_space_is_what_unicode_says_it_is() {
    for c in '\0'..=char::MAX {
        assert_eq!(space(c), c.is_whitespace(), "{c:?}");
    }
}

#[test]
fn text_helpers_agree_with_the_standard_library() {
    for text in ["", "  ", " a ", "\u{3000}x y\n", "x"] {
        assert_eq!(trim(text), text.trim());
    }
    for text in ["a=b=c", "=", "ab", "", "k=", "=v", "é=ü"] {
        let standard = text
            .split_once('=')
            .map(|(left, right)| (left.to_owned(), right.to_owned()));
        assert_eq!(split_once(text, '='), standard);
    }
    for (a, b) in [("Bearer", "bEARER"), ("é", "É"), ("a", "ab"), ("[", "{"), ("", "")] {
        assert_eq!(same_text_ignoring_case(a, b), a.eq_ignore_ascii_case(b));
    }
}

#[test]
fn user_ids_are_their_text() {
    let id = UserId::from("user-1");
    assert_eq!(id.as_str(), "user-1");
    assert_eq!(id.to_string(), "user-1");
    assert_eq!(id, UserId::from("user-1".to_owned()));
    assert_eq!(Ok(id.clone()), "user-1".parse::<UserId>());
    let text: &str = id.as_ref();
    assert_eq!(text, "user-1");
}

#[test]
fn random_ids_are_version_four_uuids() {
    let first = UserId::random();
    let second = UserId::random();
    assert_ne!(first, second);
    let text = first.as_str();
    assert_eq!(text.len(), 36);
    for (i, c) in text.chars().enumerate() {
        if [8, 13, 18, 23].contains(&i) {
            assert_eq!(c, '-');
        } else {
            assert!(c.is_ascii_digit() || ('a'..='f').contains(&c), "{text}");
        }
    }
    assert_eq!(text.as_bytes()[14], b'4');
    assert!(b"89ab".contains(&text.as_bytes()[19]));
}
