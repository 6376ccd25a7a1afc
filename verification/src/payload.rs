//! The JSON documents that requests carry in their `payload` field, read
//! and written by `serde_json`.
//!
//! What `serde_json` computes is not restated here: each operation's result
//! is given a name, and only a few facts that its source plainly shows are
//! claimed beside it.
use vstd::prelude::*;

verus! {

/// The text of an optional string.
pub open spec fn text_of(s: Option<String>) -> Option<Seq<char>> {
    match s {
        Some(t) => Some(t@),
        None => None,
    }
}

/// What `serde_json` reads as the string member `key` of the JSON document
/// `document`: `None` when the document is not JSON, is not an object, has
/// no member `key`, or that member is not a string.
pub uninterp spec fn json_member_text(document: Seq<char>, key: Seq<char>) -> Option<Seq<char>>;

/// The JSON text `serde_json` writes for document `document` once its member
/// `key` is set to the string `value`: `None` when the document is not JSON,
/// or is neither an object nor `null`.
pub uninterp spec fn json_with_member_text(
    document: Seq<char>,
    key: Seq<char>,
    value: Seq<char>,
) -> Option<Seq<char>>;

/// Whether `serde_json` reads `document` as a JSON document.
pub uninterp spec fn json_parses(document: Seq<char>) -> bool;

/// The JSON text `serde_json` writes for an object with the string member
/// `key1: text` and the number member `key2: number`.
pub uninterp spec fn json_object_of_text_and_number(
    key1: Seq<char>,
    text: Seq<char>,
    key2: Seq<char>,
    number: i64,
) -> Seq<char>;

/// Reads `document` with `serde_json::from_str` into a `serde_json::Value`,
/// looks up member `key` with `Value::get` and takes it as text with
/// `Value::as_str`. Claimed: the outcome is `json_member_text` of the
/// arguments.
#[verifier::external_body]
pub(crate) fn member_text(document: &str, key: &str) -> (text: Option<String>)
    ensures
        text_of(text) == json_member_text(document@, key@),
{
    let value: serde_json::Value = serde_json::from_str(document).ok()?;
    value.get(key)?.as_str().map(str::to_owned)
}

/// Reads `document` with `serde_json::from_str`, sets its member `key` to
/// the string `value` through `Value`'s `IndexMut<&str>`, and writes it with
/// `serde_json::to_string`. `IndexMut` panics on a document that is neither
/// an object nor `null`; those come back as `None` without the call.
/// Claimed: the outcome is `json_with_member_text` of the arguments, and
/// the text written reads back with member `key` equal to `value` (a string
/// member written by `serde_json` is read back unchanged by it).
#[verifier::external_body]
pub(crate) fn with_member_text(document: &str, key: &str, value: &str) -> (text: Option<String>)
    ensures
        text_of(text) == json_with_member_text(document@, key@, value@),
        text matches Some(t) ==> json_member_text(t@, key@) == Some(value@),
{
    let mut parsed: serde_json::Value = serde_json::from_str(document).ok()?;
    match parsed {
        serde_json::Value::Object(_) => {},
        serde_json::Value::Null => {},
        _ => return None,
    }
    parsed[key] = serde_json::Value::String(value.to_owned());
    serde_json::to_string(&parsed).ok()
}

/// Whether `serde_json::from_str` reads `document` into a
/// `serde_json::Value`. Claimed: the answer is `json_parses` of the
/// argument.
#[verifier::external_body]
pub(crate) fn parses(document: &str) -> (ok: bool)
    ensures
        ok == json_parses(document@),
{
    serde_json::from_str::<serde_json::Value>(document).is_ok()
}

/// Builds a `serde_json::Map` with the string member `key1: text` and the
/// number member `key2: number` (`Map::insert`, `Value::String`,
/// `Value::Number` from an `i64`) and writes it as a `Value::Object` with
/// `serde_json::to_string`, which fails only for maps with non-string keys
/// and so not here. Claimed: the text is `json_object_of_text_and_number` of
/// the arguments, and, for two different keys, it reads back with member
/// `key1` equal to `text`.
#[verifier::external_body]
pub(crate) fn object_of_text_and_number(key1: &str, text: &str, key2: &str, number: i64) -> (json: String)
    ensures
        json@ == json_object_of_text_and_number(key1@, text@, key2@, number),
        key1@ != key2@ ==> json_member_text(json@, key1@) == Some(text@),
{
    let mut members = serde_json::Map::new();
    members.insert(key1.to_owned(), serde_json::Value::String(text.to_owned()));
    members.insert(key2.to_owned(), serde_json::Value::Number(number.into()));
    serde_json::to_string(&serde_json::Value::Object(members)).unwrap()
}

} // verus!
