//! Configuration, and what the load generator reads of a token.

use knova::auth::config::parse_retired;
use knova::auth::{Config, ConfigError, KeyMaterial, TokenService};
use knova::common::time::Span;
use knova::common::UserId;
use knova::common::payload::payload_of;
use knova::loadgen::{access_token_of, subject_of};
use knova::profile::{Backend, Config as ProfileConfig};

fn settings(pairs: &[(&str, &str)]) -> Vec<(String, String)> {
    pairs
        .iter()
        .map(|(key, value)| ((*key).to_owned(), (*value).to_owned()))
        .collect()
}

fn pairs(keys: &[KeyMaterial]) -> Vec<(String, String)> {
    keys.iter()
        .map(|key| (key.kid.clone(), key.secret.clone()))
        .collect()
}

#[test]
fn an_empty_environment_gives_the_defaults() {
    let config = Config::from_env(&Vec::new()).expect("usable");
    assert_eq!(config.bind_addr, "127.0.0.1:8080");
    assert_eq!(config.active_key.kid, "k1");
    assert_eq!(config.active_key.secret, "dev-only-insecure-jwt-secret-change-me");
    assert!(config.retired_keys.is_empty());
    assert_eq!(config.token_ttl, Span::from_secs(900));
    assert_eq!(config.seed_username, "alice");
    assert_eq!(config.seed_password, "correct-horse-battery-staple");
    assert_eq!(config.profile_service_url, "http://127.0.0.1:8081");
    assert_eq!(config.internal_token, "dev-only-internal-token-change-me");

    let profile = ProfileConfig::from_env(&Vec::new());
    assert_eq!(profile.bind_addr, "127.0.0.1:8081");
    assert_eq!(profile.internal_token, "dev-only-internal-token-change-me");
    assert_eq!(profile.backend, Backend::Memory);
    assert_eq!(Backend::default(), Backend::Memory);
}

#[test]
fn settings_take_the_place_of_defaults() {
    let given = settings(&[
        ("TOKEN_TTL_SECS", "60"),
        ("JWT_ACTIVE_KID", "k2"),
        ("JWT_SECRET", "s2"),
        ("JWT_RETIRED_KEYS", "k1=s1"),
        ("AUTH_BIND_ADDR", "0.0.0.0:1"),
        ("INTERNAL_TOKEN", "t"),
        ("PROFILE_BIND_ADDR", "0.0.0.0:2"),
        ("PROFILE_BACKEND", "sqlite"),
        ("TOKEN_TTL_SECS", "70"),
    ]);
    let config = Config::from_env(&given).expect("usable");
    assert_eq!(config.token_ttl, Span::from_secs(60));
    assert_eq!(config.active_key.kid, "k2");
    assert_eq!(pairs(&config.retired_keys), settings(&[("k1", "s1")]));
    assert_eq!(config.bind_addr, "0.0.0.0:1");
    let copy = config.clone();
    assert_eq!(pairs(&copy.retired_keys), settings(&[("k1", "s1")]));
    let profile = ProfileConfig::from_env(&given).clone();
    assert_eq!(profile.bind_addr, "0.0.0.0:2");
    assert_eq!(profile.internal_token, "t");
    assert_eq!(profile.backend, Backend::Sqlite);
    let other = ProfileConfig::from_env(&settings(&[("PROFILE_BACKEND", "SQLite")]));
    assert_eq!(other.backend, Backend::Memory);
}

#[test]
fn a_lifetime_that_is_no_number_fails_the_boot() {
    for value in ["soon", "", "-1", "1.5", " 60"] {
        let refused = Config::from_env(&settings(&[("TOKEN_TTL_SECS", value)]));
        let Err(error) = refused else {
            panic!("{value:?} is no whole number");
        };
        assert_eq!(
            error.to_string(),
            "TOKEN_TTL_SECS must be a whole number of seconds"
        );
        let ConfigError::InvalidDuration { key, source } = error;
        assert_eq!(key, "TOKEN_TTL_SECS");
        assert_eq!(source, value.parse::<u64>().expect_err("no number"));
    }
}

#[test]
fn malformed_retired_keys_are_skipped() {
    let cases: [(&str, &[(&str, &str)]); 7] = [
        ("", &[]),
        ("k1=s1", &[("k1", "s1")]),
        ("k1=s1;k0=s0", &[("k1", "s1"), ("k0", "s0")]),
        (" k1 = s1 ;", &[("k1", " s1 ")]),
        ("k1;=s;k2=;  =s;k3=s=3", &[("k3", "s=3")]),
        (";;k1=s1;;", &[("k1", "s1")]),
        ("k1=a;k1=b", &[("k1", "a"), ("k1", "b")]),
    ];
    for (raw, expected) in cases {
        assert_eq!(pairs(&parse_retired(raw)), settings(expected), "{raw:?}");
    }
}

#[test]
fn summaries_show_no_secret() {
    let given = settings(&[
        ("JWT_SECRET", "hush-key"),
        ("JWT_RETIRED_KEYS", "k0=hush-old"),
        ("SEED_PASSWORD", "hush-seed"),
        ("INTERNAL_TOKEN", "hush-token"),
    ]);
    let shown = format!("{:?}", Config::from_env(&given).expect("usable").summary());
    assert!(shown.contains("k0") && shown.contains("<redacted>"));
    assert!(!shown.contains("hush"));
    let shown = format!("{:?}", ProfileConfig::from_env(&given).summary());
    assert!(shown.contains("127.0.0.1:8081") && !shown.contains("hush"));
}

#[test]
fn the_access_token_is_read_from_the_answer() {
    let granted = r#"{"access_token":"a.b\u002ec","token_type":"Bearer","expires_in":900}"#;
    assert_eq!(access_token_of(granted), Some("a.b.c".to_owned()));
    assert_eq!(access_token_of(r#"{"access_token":1}"#), None);
    assert_eq!(access_token_of(r#"{"error":"unauthorized"}"#), None);
    assert_eq!(access_token_of(r#"["access_token"]"#), None);
    assert_eq!(access_token_of("no JSON"), None);
    assert_eq!(access_token_of(""), None);
}

#[test]
fn the_subject_of_a_token_is_read_without_its_key() {
    let tokens = TokenService::new(
        &KeyMaterial::new("k", "secret"),
        &Vec::new(),
        Span::from_secs(900),
    );
    for name in ["u", "us", "user-1", "é \"quoted\"", "0123456789"] {
        let token = tokens.issue(&UserId::from(name), name).expect("signs");
        assert_eq!(subject_of(&token), Some(name.to_owned()));
    }
    assert_eq!(subject_of(""), None);
    assert_eq!(subject_of("no dots"), None);
    assert_eq!(subject_of("a.b*.c"), None);
    assert_eq!(subject_of("a.e30.c"), None);
    assert_eq!(subject_of("a.eyJzdWIiOjF9.c"), None);
    assert_eq!(subject_of("a.eyJzdWIiOiJ4In0"), Some("x".to_owned()));
    assert_eq!(subject_of("a.W10.c"), None);
}

#[test]
fn payloads_decode_six_bits_at_a_time() {
    assert_eq!(payload_of("a..c"), Some(Vec::new()));
    assert_eq!(payload_of("a.AA.c"), Some(vec![0]));
    assert_eq!(payload_of("a._-8.c"), Some(vec![0xff, 0xef]));
    assert_eq!(payload_of("a.TWFu.c"), Some(b"Man".to_vec()));
    assert_eq!(payload_of("a.TWE.c"), Some(b"Ma".to_vec()));
    assert_eq!(payload_of("a.T.c"), Some(Vec::new()));
    assert_eq!(payload_of("a.TWE=.c"), None);
    assert_eq!(payload_of("a.é.c"), None);
}
