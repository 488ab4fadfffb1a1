//! Digests, message authentication codes and encodings computed by outside crates.

use crate::text;
use base64::Engine;
use hmac::Mac;
use sha2::Digest;
use vstd::prelude::*;
use vstd::utf8::*;

verus! {

/// The SHA-256 digest of a message, as an array.
pub uninterp spec fn sha256_array(message: Seq<u8>) -> [u8; 32];

/// The SHA-256 digest of a message.
pub open spec fn sha256_of(message: Seq<u8>) -> Seq<u8> {
    sha256_array(message)@
}

/// The HMAC-SHA-256 code of a message under a key.
pub uninterp spec fn hmac_sha256_of(key: Seq<u8>, message: Seq<u8>) -> Seq<u8>;

/// The bytes that a text in unpadded URL-safe base64 stands for, if it is such a text.
pub uninterp spec fn base64_decoded(text: Seq<char>) -> Option<Seq<u8>>;

/// Bytes in unpadded URL-safe base64.
pub uninterp spec fn base64_encoded(bytes: Seq<u8>) -> Seq<char>;

/// What a list of texts holds.
pub open spec fn texts_of(texts: Seq<String>) -> Seq<Seq<char>> {
    texts.map_values(|text: String| text@)
}

/// A digit of a hexadecimal number.
pub open spec fn hex_digit(value: int) -> char {
    seq!['0', '1', '2', '3', '4', '5', '6', '7', '8', '9', 'a', 'b', 'c', 'd', 'e', 'f'][value]
}

/// A character as it stands in a JSON string.
pub open spec fn json_character(character: char) -> Seq<char> {
    if character == '"' || character == '\\' {
        seq!['\\', character]
    } else if character == '\u{8}' {
        seq!['\\', 'b']
    } else if character == '\t' {
        seq!['\\', 't']
    } else if character == '\n' {
        seq!['\\', 'n']
    } else if character == '\u{c}' {
        seq!['\\', 'f']
    } else if character == '\r' {
        seq!['\\', 'r']
    } else if (character as u32) < 0x20 {
        seq![
            '\\',
            'u',
            '0',
            '0',
            hex_digit(character as int / 16),
            hex_digit(character as int % 16),
        ]
    } else {
        seq![character]
    }
}

/// A text as a JSON string, with its quotes.
pub open spec fn json_string(text: Seq<char>) -> Seq<char> {
    seq!['"'] + text.map_values(|character: char| json_character(character)).flatten() + seq!['"']
}

/// Writes a text as a JSON string as `serde_json::Value::String` does when it is turned into a
/// text: quotes, backslashes and control characters are escaped, and nothing else is.
#[verifier::external_body]
pub(crate) fn json_string_text(text: &str) -> (written: String)
    ensures
        written@ == json_string(text@),
{
    serde_json::Value::String(text.to_owned()).to_string()
}

/// Parts one after the other, with commas between them.
pub open spec fn joined(parts: Seq<Seq<char>>) -> Seq<char>
    decreases parts.len(),
{
    if parts.len() == 0 {
        seq![]
    } else if parts.len() == 1 {
        parts[0]
    } else {
        joined(parts.drop_last()) + seq![','] + parts.last()
    }
}

/// A JSON array of texts.
pub open spec fn json_text_array(texts: Seq<Seq<char>>) -> Seq<u8> {
    encode_utf8(
        seq!['['] + joined(texts.map_values(|text: Seq<char>| json_string(text))) + seq![']'],
    )
}

/// The text members of an object, by what their names and values hold.
pub open spec fn text_members(members: Seq<(String, String)>) -> Seq<(Seq<char>, Seq<char>)> {
    members.map_values(|member: (String, String)| (member.0@, member.1@))
}

/// The number members of an object, by what their names hold.
pub open spec fn number_members(members: Seq<(String, u64)>) -> Seq<(Seq<char>, u64)> {
    members.map_values(|member: (String, u64)| (member.0@, member.1))
}

/// The members of a flat JSON object, each with its name and its value: text members, number
/// members, and again text members.
pub open spec fn flat_members(
    first: Seq<(Seq<char>, Seq<char>)>,
    numbers: Seq<(Seq<char>, u64)>,
    rest: Seq<(Seq<char>, Seq<char>)>,
) -> Seq<(Seq<char>, Seq<char>)> {
    first.map_values(|member: (Seq<char>, Seq<char>)| (member.0, json_string(member.1)))
        + numbers.map_values(
        |member: (Seq<char>, u64)| (member.0, text::decimal_text(member.1 as nat)),
    ) + rest.map_values(|member: (Seq<char>, Seq<char>)| (member.0, json_string(member.1)))
}

/// A JSON object with members in the order that they are given in.
pub open spec fn json_object(members: Seq<(Seq<char>, Seq<char>)>) -> Seq<u8> {
    encode_utf8(
        seq!['{'] + joined(
            members.map_values(
                |member: (Seq<char>, Seq<char>)| json_string(member.0) + seq![':'] + member.1,
            ),
        ) + seq!['}'],
    )
}

/// Members come in the order of their names, each once.
pub open spec fn are_sorted(members: Seq<(Seq<char>, Seq<char>)>) -> bool {
    forall|i: int, j: int|
        0 <= i < j < members.len() ==> text::precedes(
            (#[trigger] members[i]).0,
            (#[trigger] members[j]).0,
        )
}

/// Writes a JSON array of texts with `serde_json::to_vec`, with nothing between the members but
/// commas. It fails on no list of texts.
#[verifier::external_body]
pub(crate) fn json_array_bytes(texts: &Vec<String>) -> (encoded: Option<Vec<u8>>)
    ensures
        encoded is Some,
        encoded->0@ == json_text_array(texts_of(texts@)),
{
    serde_json::to_vec(texts).ok()
}

/// How many members the object has that a text is in JSON: the outer value is missing where the
/// text is no JSON, the inner one where its value is no object.
pub uninterp spec fn json_object_size(text: Seq<char>) -> Option<Option<nat>>;

/// Whether a text is JSON, and then whether its value is an object.
pub open spec fn json_is_object(text: Seq<char>) -> Option<bool> {
    match json_object_size(text) {
        Some(members) => Some(members is Some),
        None => None,
    }
}

/// Whether two texts are both JSON and have equal values.
pub uninterp spec fn json_equal(left: Seq<char>, right: Seq<char>) -> bool;

/// Parses a text with `serde_json::from_str` and counts the members of the object that
/// `serde_json::Value::as_object` gives, if any; both depend on the text alone.
#[verifier::external_body]
pub(crate) fn json_members(text: &str) -> (members: Option<Option<usize>>)
    ensures
        match (members, json_object_size(text@)) {
            (Some(Some(counted)), Some(Some(size))) => counted == size,
            (Some(None), Some(None)) => true,
            (None, None) => true,
            _ => false,
        },
{
    match serde_json::from_str::<serde_json::Value>(text) {
        Ok(value) => Some(value.as_object().map(|object| object.len())),
        Err(_) => None,
    }
}

/// Tells whether a text is JSON, and then whether its value is an object.
pub fn json_object_text(text: &str) -> (found: Option<bool>)
    ensures
        found == json_is_object(text@),
{
    match json_members(text) {
        Some(members) => Some(members.is_some()),
        None => None,
    }
}

/// Parses two texts with `serde_json::from_str` and compares the values as `serde_json::Value`
/// does; the outcome depends on the texts alone.
#[verifier::external_body]
pub(crate) fn same_json(left: &str, right: &str) -> (same: bool)
    ensures
        same == json_equal(left@, right@),
{
    match (
        serde_json::from_str::<serde_json::Value>(left),
        serde_json::from_str::<serde_json::Value>(right),
    ) {
        (Ok(left), Ok(right)) => left == right,
        _ => false,
    }
}

/// Digests a message with `sha2::Sha256::digest`, whose result is 32 bytes long and depends on
/// the message alone.
#[verifier::external_body]
pub(crate) fn sha256(message: &[u8]) -> (digest: Vec<u8>)
    ensures
        digest@ == sha256_array(message@)@,
{
    sha2::Sha256::digest(message).to_vec()
}

/// Compares a code with the one that `hmac::Hmac<sha2::Sha256>` computes of a message under a
/// key; the crate takes keys of every length, and codes of another length are never equal.
#[verifier::external_body]
pub(crate) fn hmac_sha256_matches(key: &[u8], message: &[u8], code: &[u8]) -> (same: bool)
    ensures
        same == (code@ == hmac_sha256_of(key@, message@)),
{
    match hmac::Hmac::<sha2::Sha256>::new_from_slice(key) {
        Ok(mac) => mac.chain_update(message).verify_slice(code).is_ok(),
        Err(_) => false,
    }
}

/// Decodes a text with the `URL_SAFE_NO_PAD` engine of `base64`, which refuses texts that are no
/// unpadded URL-safe base64.
#[verifier::external_body]
pub(crate) fn base64_decode(text: &str) -> (bytes: Option<Vec<u8>>)
    ensures
        match bytes {
            Some(decoded) => base64_decoded(text@) == Some(decoded@),
            None => base64_decoded(text@) is None,
        },
{
    base64::engine::general_purpose::URL_SAFE_NO_PAD.decode(text).ok()
}

/// Encodes bytes with the `URL_SAFE_NO_PAD` engine of `base64`; what it gives decodes to the
/// bytes again.
#[verifier::external_body]
pub(crate) fn base64_encode(bytes: &[u8]) -> (text: String)
    requires
        bytes@.len() <= 0x1000_0000,
    ensures
        text@ == base64_encoded(bytes@),
        base64_decoded(text@) == Some(bytes@),
{
    base64::engine::general_purpose::URL_SAFE_NO_PAD.encode(bytes)
}

/// Writes a JSON object with `serde_json::to_vec`, whose maps keep members by their names. It fails
/// on no map of texts and numbers.
#[verifier::external_body]
pub(crate) fn json_object_bytes(
    first: &Vec<(String, String)>,
    numbers: &Vec<(String, u64)>,
    rest: &Vec<(String, String)>,
) -> (encoded: Option<Vec<u8>>)
    requires
        are_sorted(
            flat_members(text_members(first@), number_members(numbers@), text_members(rest@)),
        ),
    ensures
        encoded is Some,
        encoded->0@ == json_object(
            flat_members(text_members(first@), number_members(numbers@), text_members(rest@)),
        ),
{
    let mut object: serde_json::Map<String, serde_json::Value> = serde_json::Map::new();
    object.extend(first.iter().map(|member| (member.0.clone(), member.1.clone().into())));
    object.extend(numbers.iter().map(|member| (member.0.clone(), member.1.into())));
    object.extend(rest.iter().map(|member| (member.0.clone(), member.1.clone().into())));
    serde_json::to_vec(&object).ok()
}

} // verus!
