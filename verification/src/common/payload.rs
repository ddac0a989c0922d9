//! The payload of a token.
//!
//! A token is three parts with dots between them; the one in the middle is JSON,
//! in the URL-safe base64 alphabet. What is read here is not verified: whether
//! the token is genuine is another question.

use crate::common::text::{characters, law_split_gives_both_sides, position, split_at_first};
use vstd::prelude::*;

verus! {

/// The value of a character of the URL-safe base64 alphabet.
pub open spec fn sextet(c: char) -> Option<u8> {
    if 'A' <= c <= 'Z' {
        Some((c as u8 - 65) as u8)
    } else if 'a' <= c <= 'z' {
        Some((c as u8 - 71) as u8)
    } else if '0' <= c <= '9' {
        Some((c as u8 + 4) as u8)
    } else if c == '-' {
        Some(62)
    } else if c == '_' {
        Some(63)
    } else {
        None
    }
}

/// The value of a character of the URL-safe base64 alphabet.
fn sextet_of(c: char) -> (r: Option<u8>)
    ensures
        r == sextet(c),
        r matches Some(value) ==> value < 64,
{
    if 'A' <= c && c <= 'Z' {
        Some(c as u8 - 65)
    } else if 'a' <= c && c <= 'z' {
        Some(c as u8 - 71)
    } else if '0' <= c && c <= '9' {
        Some(c as u8 + 4)
    } else if c == '-' {
        Some(62)
    } else if c == '_' {
        Some(63)
    } else {
        None
    }
}

/// The byte at `k` of what `text` decodes to: eight of the bits that the
/// characters write down, six apiece.
pub open spec fn base64_byte(text: Seq<char>, k: int) -> u8 {
    let i = k / 3 * 4 + k % 3;
    let left = sextet(text[i])->0;
    let right = sextet(text[i + 1])->0;
    if k % 3 == 0 {
        (left * 4 + right / 16) as u8
    } else if k % 3 == 1 {
        (left % 16 * 16 + right / 4) as u8
    } else {
        (left % 4 * 64 + right) as u8
    }
}

/// What a text of the URL-safe base64 alphabet decodes to, without padding:
/// whole bytes only; nothing where another character stands in it.
pub open spec fn base64_decoded(text: Seq<char>) -> Option<Seq<u8>> {
    if forall|i: int| 0 <= i < text.len() ==> (#[trigger] sextet(text[i])) is Some {
        Some(Seq::new((text.len() * 3 / 4) as nat, |k: int| base64_byte(text, k)))
    } else {
        None
    }
}

/// Decodes the characters from `from` to `to`.
fn decode(chars: &Vec<char>, from: usize, to: usize) -> (r: Option<Vec<u8>>)
    requires
        from <= to <= chars.len(),
    ensures
        match r {
            Some(bytes) => base64_decoded(chars@.subrange(from as int, to as int)) == Some(bytes@),
            None => base64_decoded(chars@.subrange(from as int, to as int)) is None,
        },
{
    let ghost text = chars@.subrange(from as int, to as int);
    let mut bytes: Vec<u8> = Vec::new();
    let mut rest: u8 = 0;
    let mut phase: u8 = 0;
    let mut i: usize = from;
    while i < to
        invariant
            from <= i <= to <= chars.len(),
            text == chars@.subrange(from as int, to as int),
            phase == (i - from) % 4,
            bytes@.len() == (i - from) * 3 / 4,
            forall|j: int| 0 <= j < i - from ==> (#[trigger] sextet(text[j])) is Some,
            forall|k: int| 0 <= k < bytes@.len() ==> #[trigger] bytes@[k] == base64_byte(text, k),
            phase == 1 ==> rest == sextet(text[i - from - 1])->0 && rest < 64,
            phase == 2 ==> rest == sextet(text[i - from - 1])->0 % 16,
            phase == 3 ==> rest == sextet(text[i - from - 1])->0 % 4,
        decreases to - i,
    {
        let ghost n = i - from;
        assert(text[n] == chars@[i as int]);
        let value: u8 = match sextet_of(chars[i]) {
            Some(value) => value,
            None => {
                assert(sextet(text[n]) is None);
                return None;
            },
        };
        let ghost k = bytes@.len() as int;
        if phase == 0 {
            rest = value;
            phase = 1;
        } else if phase == 1 {
            assert(k % 3 == 0 && k / 3 * 4 == n - 1);
            bytes.push(rest * 4 + value / 16);
            rest = value % 16;
            phase = 2;
        } else if phase == 2 {
            assert(k % 3 == 1 && k / 3 * 4 + 1 == n - 1);
            bytes.push(rest * 16 + value / 4);
            rest = value % 4;
            phase = 3;
        } else {
            assert(k % 3 == 2 && k / 3 * 4 + 2 == n - 1);
            bytes.push(rest * 64 + value);
            rest = 0;
            phase = 0;
        }
        i = i + 1;
    }
    assert(bytes@ =~= base64_decoded(text)->0);
    Some(bytes)
}

/// The payload of a token, as it is written down: what stands between its first
/// dot and its second.
pub open spec fn payload_text(token: Seq<char>) -> Option<Seq<char>> {
    match split_at_first(token, '.') {
        Some((_, rest)) => match split_at_first(rest, '.') {
            Some((payload, _)) => Some(payload),
            None => Some(rest),
        },
        None => None,
    }
}

/// The payload of a token, in bytes.
pub open spec fn payload_bytes(token: Seq<char>) -> Option<Seq<u8>> {
    match payload_text(token) {
        Some(text) => base64_decoded(text),
        None => None,
    }
}

/// What `find` sees from `from` on is what it sees in the rest of the text.
proof fn lemma_find_in_rest(s: Seq<char>, c: char, from: int, at: int)
    requires
        0 <= from <= at <= s.len(),
    ensures
        crate::common::text::find(s, c, at) == from + crate::common::text::find(
            s.skip(from),
            c,
            at - from,
        ),
    decreases s.len() - at,
{
    if at < s.len() {
        assert(s.skip(from)[at - from] == s[at]);
        if s[at] != c {
            lemma_find_in_rest(s, c, from, at + 1);
        }
    }
}

/// Decodes the payload of a token, without verifying anything.
pub fn payload_of(token: &str) -> (r: Option<Vec<u8>>)
    ensures
        match r {
            Some(bytes) => payload_bytes(token@) == Some(bytes@),
            None => payload_bytes(token@) is None,
        },
{
    let chars = characters(token);
    let first: usize = position(&chars, '.', 0);
    if first == chars.len() {
        return None;
    }
    let second: usize = position(&chars, '.', first + 1);
    proof {
        let rest = token@.skip(first + 1);
        lemma_find_in_rest(token@, '.', first + 1, first + 1);
        let text = chars@.subrange(first + 1, second as int);
        if second < chars.len() {
            assert(rest.take(second - first - 1) =~= text);
        } else {
            assert(rest =~= text);
        }
        assert(payload_text(token@) == Some(text));
    }
    decode(&chars, first + 1, second)
}

/// The sixty-four characters of the URL-safe base64 alphabet, by their values.
pub proof fn law_the_alphabet_is_url_safe(c: char, value: u8)
    ensures
        ({
            let alphabet = "ABCDEFGHIJKLMNOPQRSTUVWXYZabcdefghijklmnopqrstuvwxyz0123456789-_"@;
            &&& alphabet.len() == 64
            &&& sextet(c) == Some(value) ==> value < 64 && alphabet[value as int] == c
            &&& value < 64 && alphabet[value as int] == c ==> sextet(c) == Some(value)
        }),
{
    reveal_strlit("ABCDEFGHIJKLMNOPQRSTUVWXYZabcdefghijklmnopqrstuvwxyz0123456789-_");
    let alphabet = "ABCDEFGHIJKLMNOPQRSTUVWXYZabcdefghijklmnopqrstuvwxyz0123456789-_"@;
    assert(alphabet =~= Seq::new(
        64,
        |i: int|
            if i < 26 {
                (65 + i) as char
            } else if i < 52 {
                (71 + i) as char
            } else if i < 62 {
                (i - 4) as char
            } else if i == 62 {
                '-'
            } else {
                '_'
            },
    ));
}

/// Base64 writes the same bits six at a time: four characters are three bytes, as
/// one number; of what is left over at the end, two characters are one byte and
/// three are two, and the bits beyond are dropped. Every character counts, however
/// many there are, and one that is not of the alphabet spoils the text.
pub proof fn law_base64_writes_the_same_bits(text: Seq<char>, group: int)
    requires
        group >= 0,
        4 * group + 2 <= text.len(),
    ensures
        base64_decoded(text) is Some <==> (forall|i: int|
            0 <= i < text.len() ==> (#[trigger] sextet(text[i])) is Some),
        base64_decoded(text) matches Some(bytes) ==> {
            let first = sextet(text[4 * group])->0 as int;
            let second = sextet(text[4 * group + 1])->0 as int;
            let third = sextet(text[4 * group + 2])->0 as int;
            let fourth = sextet(text[4 * group + 3])->0 as int;
            &&& bytes.len() == text.len() * 3 / 4
            &&& 4 * group + 4 <= text.len() ==> first * 262_144 + second * 4_096 + third * 64
                + fourth == bytes[3 * group] * 65_536 + bytes[3 * group + 1] * 256 + bytes[3 * group
                + 2]
            &&& 4 * group + 3 == text.len() ==> (first * 4_096 + second * 64 + third) / 4
                == bytes[3 * group] * 256 + bytes[3 * group + 1]
            &&& 4 * group + 2 == text.len() ==> (first * 64 + second) / 16 == bytes[3 * group]
        },
{
    if base64_decoded(text) is Some {
        assert(sextet(text[4 * group]) is Some);
        assert(sextet(text[4 * group + 1]) is Some);
        if 4 * group + 2 < text.len() {
            assert(sextet(text[4 * group + 2]) is Some);
        }
        if 4 * group + 3 < text.len() {
            assert(sextet(text[4 * group + 3]) is Some);
        }
        assert((3 * group) / 3 == group && (3 * group) % 3 == 0);
        assert((3 * group + 1) / 3 == group && (3 * group + 1) % 3 == 1);
        assert((3 * group + 2) / 3 == group && (3 * group + 2) % 3 == 2);
    }
}

/// The payload of a token is what stands between its first dot and its second, or
/// behind its first where there is no second; a token without dots has none.
pub proof fn law_the_payload_stands_between_the_dots(
    head: Seq<char>,
    payload: Seq<char>,
    signature: Seq<char>,
)
    requires
        !head.contains('.'),
        !payload.contains('.'),
    ensures
        payload_text(head + seq!['.'] + (payload + seq!['.'] + signature)) == Some(payload),
        payload_text(head + seq!['.'] + payload) == Some(payload),
        payload_text(head) is None,
        payload_bytes(head + seq!['.'] + (payload + seq!['.'] + signature)) == base64_decoded(
            payload,
        ),
        payload_bytes(head) is None,
{
    law_split_gives_both_sides(head, '.', payload + seq!['.'] + signature);
    law_split_gives_both_sides(head, '.', payload);
    law_split_gives_both_sides(payload, '.', signature);
}

} // verus!
