//! Reading the claims of a token out of its payload.

use jsonwebtoken::{Algorithm, EncodingKey};
use knova::auth::token::read_claims;
use knova::auth::{AppError, Claims, KeyMaterial, TokenService};
use knova::common::members::{members_of, number_member, text_member};
use knova::common::payload::payload_of;
use knova::common::time::Span;
use knova::common::UserId;

const ALPHABET: &[u8; 64] = b"ABCDEFGHIJKLMNOPQRSTUVWXYZabcdefghijklmnopqrstuvwxyz0123456789-_";

fn base64(bytes: &[u8]) -> String {
    let mut text = String::new();
    for chunk in bytes.chunks(3) {
        let mut bits = 0u32;
        for i in 0..3 {
            bits = bits << 8 | u32::from(*chunk.get(i).unwrap_or(&0));
        }
        for i in 0..=chunk.len() {
            text.push(char::from(ALPHABET[(bits >> (18 - 6 * i) & 63) as usize]));
        }
    }
    text
}

/// A token over any payload, signed with `secret` under the key id `k1`.
fn signed(payload: &[u8], secret: &str) -> String {
    let message = format!("{}.{}", base64(br#"{"alg":"HS256","kid":"k1"}"#), base64(payload));
    let key = EncodingKey::from_secret(secret.as_bytes());
    let signature = jsonwebtoken::crypto::sign(message.as_bytes(), &key, Algorithm::HS256);
    format!("{message}.{}", signature.expect("signs"))
}

fn tokens() -> TokenService {
    TokenService::new(
        &KeyMaterial::new("k1", "secret"),
        &Vec::new(),
        Span::from_secs(900),
    )
}

fn expected() -> Claims {
    Claims {
        sub: UserId::from("u"),
        username: "alice".to_owned(),
        jti: "id".to_owned(),
        exp: 100,
        iat: 10,
    }
}

fn accepted(payload: &[u8]) {
    let shown = String::from_utf8_lossy(payload).into_owned();
    let token = signed(payload, "secret");
    assert_eq!(payload_of(&token).as_deref(), Some(payload));
    assert_eq!(read_claims(payload), Some(expected()), "{shown}");
    assert_eq!(tokens().verify_at(&token, 100).expect(&shown), expected());
    assert!(matches!(
        tokens().verify_at(&signed(payload, "another"), 100),
        Err(AppError::InvalidToken)
    ));
}

fn refused(payload: &[u8]) {
    let shown = String::from_utf8_lossy(payload).into_owned();
    assert!(
        matches!(
            tokens().verify_at(&signed(payload, "secret"), 100),
            Err(AppError::InvalidToken)
        ),
        "{shown}"
    );
}

#[test]
fn claims_are_read_in_any_order() {
    accepted(br#"{"sub":"u","username":"alice","jti":"id","exp":100,"iat":10}"#);
    accepted(br#"{"iat":10,"exp":100,"jti":"id","username":"alice","sub":"u"}"#);
    accepted(b" \n{ \"sub\" :\t\"u\" , \"username\":\"al\\u0069ce\",\r\"jti\":\"id\",\"exp\": 100 ,\"iat\" : 10 } ");
}

#[test]
fn other_members_do_not_matter() {
    for other in [
        r#""x":1e999"#.to_owned(),
        r#""x":-0.5E+3"#.to_owned(),
        r#""x":"\ud800""#.to_owned(),
        r#""x":{"sub":"other","y":[1,{"jti":2}]}"#.to_owned(),
        r#""x":null,"x":true"#.to_owned(),
        r#""Sub":"other","":"}","y":",\"sub\":1""#.to_owned(),
        format!(r#""x":{}{}"#, "[".repeat(300), "]".repeat(300)),
    ] {
        accepted(format!(r#"{{{other},"sub":"u","username":"alice","jti":"id","exp":100,"iat":10}}"#).as_bytes());
        accepted(format!(r#"{{"sub":"u","username":"alice","jti":"id","exp":100,"iat":10,{other}}}"#).as_bytes());
    }
    accepted(b"{\"sub\":\"u\",\"username\":\"alice\",\"x\":\"\xff\",\"jti\":\"id\",\"exp\":100,\"iat\":10}");
}

#[test]
fn a_repeated_claim_is_refused() {
    for repeated in [
        r#""sub":"u""#,
        r#""username":"alice""#,
        r#""jti":"id""#,
        r#""jti":"other""#,
        r#""exp":100"#,
        r#""iat":10"#,
        r#""iat":"ten""#,
    ] {
        refused(format!(r#"{{{repeated},"sub":"u","username":"alice","jti":"id","exp":100,"iat":10}}"#).as_bytes());
        refused(format!(r#"{{"sub":"u","username":"alice","jti":"id","exp":100,"iat":10,{repeated}}}"#).as_bytes());
    }
}

#[test]
fn a_claim_that_is_missing_or_of_another_kind_is_refused() {
    for payload in [
        "",
        "{}",
        "[]",
        r#"["u","alice","id",100,10]"#,
        r#""text""#,
        "not JSON",
        r#"{"username":"alice","jti":"id","exp":100,"iat":10}"#,
        r#"{"sub":"u","jti":"id","exp":100,"iat":10}"#,
        r#"{"sub":"u","username":"alice","exp":100,"iat":10}"#,
        r#"{"sub":"u","username":"alice","jti":"id","iat":10}"#,
        r#"{"sub":"u","username":"alice","jti":"id","exp":100}"#,
        r#"{"sub":1,"username":"alice","jti":"id","exp":100,"iat":10}"#,
        r#"{"sub":"u","username":null,"jti":"id","exp":100,"iat":10}"#,
        r#"{"sub":"u","username":"alice","jti":["id"],"exp":100,"iat":10}"#,
        r#"{"sub":"u","username":"alice","jti":"id","exp":100.0,"iat":10}"#,
        r#"{"sub":"u","username":"alice","jti":"id","exp":"100","iat":10}"#,
        r#"{"sub":"u","username":"alice","jti":"id","exp":100,"iat":-1}"#,
        r#"{"sub":"u","username":"alice","jti":"id","exp":100,"iat":18446744073709551616}"#,
        r#"{"sub":"u","username":"\ud800","jti":"id","exp":100,"iat":10}"#,
        r#"{"sub":"u","username":"alice","jti":"id","exp":100,"iat":10,"aud":"them"}"#,
        r#"{"sub":"u","username":"alice","jti":"id","exp":100,"iat":10} x"#,
        r#"{"sub":"u","username":"alice","jti":"id","exp":100,"iat":10,}"#,
        r#"{"sub":"u","username":"alice","jti":"id","exp":100,"iat":10"#,
        r#"{"sub":"u","username":"alice","jti":"id","exp":100 "iat":10}"#,
        r#"{"sub" "u","username":"alice","jti":"id","exp":100,"iat":10}"#,
        r#"{"sub":"u","username":"alice","jti":"id","exp":100,"iat":10,"x":01}"#,
        r#"{"sub":"u","username":"alice","jti":"id","exp":100,"iat":10,1:2}"#,
    ] {
        refused(payload.as_bytes());
    }
}

#[test]
fn members_are_listed_as_they_are_written() {
    let members = members_of(br#" { "a" : 1 , "b":[2, 3] ,"a":"x\n" } rest"#).expect("an object");
    let shown: Vec<(&str, &[u8])> = members
        .iter()
        .map(|member| (member.name.as_str(), member.value.trim_ascii()))
        .collect();
    assert_eq!(shown, [("a", &b"1"[..]), ("b", b"[2, 3]"), ("a", br#""x\n""#)]);
    assert_eq!(text_member(&members, "a"), None, "repeated");
    assert_eq!(text_member(&members, "b"), None, "no text");
    assert_eq!(text_member(&members, "c"), None, "absent");
    let members = members_of(r#"{"a":18446744073709551615,"b":"é"}"#.as_bytes()).expect("an object");
    assert_eq!(number_member(&members, "a"), Some(u64::MAX));
    assert_eq!(number_member(&members, "b"), None);
    assert_eq!(text_member(&members, "b").as_deref(), Some("é"));
    assert_eq!(members_of(b"{ }").map(|members| members.len()), Some(0));
    for broken in ["", "{", "[]", r#"{"a"}"#, r#"{"a":}"#, r#"{,}"#, r#"{"a":1,}"#, r#"{"a":1"#] {
        assert!(members_of(broken.as_bytes()).is_none(), "{broken}");
    }
}
