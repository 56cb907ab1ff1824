//! JSON documents as the wire protocol sees them.
//!
//! Parsing and string quoting are done by `serde_json`. This module gives a
//! parsed document a mathematical reading ([`Json`]), states for each
//! `serde_json` accessor that the decoders use what it returns in terms of
//! that reading, and builds the member readers of the record decoders on top.
//! The readings hold of `serde_json` with its default features, under which
//! a number is kept as `u64`, as `i64` or as a float.

use vstd::prelude::*;
use vstd::string::*;

verus! {

/// `serde_json::Value`, a parsed JSON document. Its inside is read through
/// the accessors specified below and through nothing else.
#[verifier::external_type_specification]
#[verifier::external_body]
pub struct ExValue(serde_json::Value);

/// A JSON document as a mathematical value.
///
/// Numbers are read the way the decoders need them: an integer that
/// `serde_json` keeps exactly is an `Integer`, every other number is a
/// `Fraction`.
pub enum Json {
    Null,
    Bool(bool),
    Integer(int),
    Fraction,
    Text(Seq<char>),
    Array(Seq<Json>),
    Object(Map<Seq<char>, Json>),
}

/// The document that a parsed `serde_json::Value` holds.
pub uninterp spec fn json_of(v: serde_json::Value) -> Json;

/// The document that `bytes` spell, or `None` where they are not exactly one
/// JSON value (surrounding whitespace allowed).
pub uninterp spec fn json_text(bytes: Seq<u8>) -> Option<Json>;

/// The JSON string literal, quotes included, that spells `text`.
pub uninterp spec fn json_quoted(text: Seq<char>) -> Seq<char>;

/// The member `key` of an object; `None` for a missing key and for a
/// document that is no object.
pub open spec fn member_of(j: Json, key: Seq<char>) -> Option<Json> {
    match j {
        Json::Object(m) => if m.contains_key(key) {
            Some(m[key])
        } else {
            None
        },
        _ => None,
    }
}

/// A member that must be present and a string.
pub open spec fn text_member(j: Json, key: Seq<char>) -> Option<Seq<char>> {
    match member_of(j, key) {
        Some(Json::Text(s)) => Some(s),
        _ => None,
    }
}

/// A member that must be present and an integer in the range of `i64`.
pub open spec fn i64_member(j: Json, key: Seq<char>) -> Option<i64> {
    match member_of(j, key) {
        Some(Json::Integer(n)) => if i64::MIN <= n <= i64::MAX {
            Some(n as i64)
        } else {
            None
        },
        _ => None,
    }
}

/// A member that must be present and an integer in the range of `u64`.
pub open spec fn u64_member(j: Json, key: Seq<char>) -> Option<u64> {
    match member_of(j, key) {
        Some(Json::Integer(n)) => if 0 <= n <= u64::MAX {
            Some(n as u64)
        } else {
            None
        },
        _ => None,
    }
}

/// A string member that may be missing or `null` (both read as `Some(None)`);
/// `None` where the member holds anything else.
pub open spec fn optional_text_member(j: Json, key: Seq<char>) -> Option<Option<Seq<char>>> {
    match member_of(j, key) {
        None => Some(None),
        Some(Json::Null) => Some(None),
        Some(Json::Text(s)) => Some(Some(s)),
        Some(_) => None,
    }
}

/// A `u64` member that may be missing or `null` (both read as `Some(None)`);
/// `None` where the member holds anything else.
pub open spec fn optional_u64_member(j: Json, key: Seq<char>) -> Option<Option<u64>> {
    match member_of(j, key) {
        None => Some(None),
        Some(Json::Null) => Some(None),
        Some(Json::Integer(n)) => if 0 <= n <= u64::MAX {
            Some(Some(n as u64))
        } else {
            None
        },
        Some(_) => None,
    }
}

/// The view of an optional string.
pub open spec fn text_view(t: Option<String>) -> Option<Seq<char>> {
    match t {
        Some(s) => Some(s@),
        None => None,
    }
}

/// The view of an optional string that a reader may have refused.
pub open spec fn optional_text_view(t: Option<Option<String>>) -> Option<Option<Seq<char>>> {
    match t {
        Some(inner) => Some(text_view(inner)),
        None => None,
    }
}

/// `serde_json::from_slice::<Value>`: it succeeds exactly on the texts that
/// `json_text` knows, and the value it hands out holds that document.
#[verifier::external_body]
pub(crate) fn parse(bytes: &[u8]) -> (r: Option<serde_json::Value>)
    ensures
        match r {
            Some(v) => json_text(bytes@) == Some(json_of(v)),
            None => json_text(bytes@) is None,
        },
{
    serde_json::from_slice::<serde_json::Value>(bytes).ok()
}

/// `serde_json::to_string` on a string slice: the JSON string literal for
/// `text`. Writing a string into memory cannot fail, so there is no error to
/// report.
#[verifier::external_body]
pub(crate) fn quote(text: &str) -> (r: String)
    ensures
        r@ == json_quoted(text@),
{
    serde_json::to_string(text).unwrap_or_default()
}

/// `Value::get` with a string key: the member of that name where the value
/// is an object that has one, else `None`.
#[verifier::external_body]
pub(crate) fn member<'a>(v: &'a serde_json::Value, key: &str) -> (r: Option<&'a serde_json::Value>)
    ensures
        match member_of(json_of(*v), key@) {
            Some(found) => r matches Some(c) && json_of(*c) == found,
            None => r is None,
        },
{
    v.get(key)
}

/// `Value::as_str`: the text of a JSON string, `None` for any other value.
pub assume_specification<'a>[ serde_json::Value::as_str ](v: &'a serde_json::Value) -> (r: Option<
    &'a str,
>)
    ensures
        match json_of(*v) {
            Json::Text(s) => r matches Some(t) && t@ == s,
            _ => r is None,
        },
;

/// `Value::as_u64`: an integer in the range of `u64`, `None` for any other
/// value.
pub assume_specification[ serde_json::Value::as_u64 ](v: &serde_json::Value) -> (r: Option<u64>)
    ensures
        r == match json_of(*v) {
            Json::Integer(n) => if 0 <= n <= u64::MAX {
                Some(n as u64)
            } else {
                None
            },
            _ => None,
        },
;

/// `Value::as_i64`: an integer in the range of `i64`, `None` for any other
/// value.
pub assume_specification[ serde_json::Value::as_i64 ](v: &serde_json::Value) -> (r: Option<i64>)
    ensures
        r == match json_of(*v) {
            Json::Integer(n) => if i64::MIN <= n <= i64::MAX {
                Some(n as i64)
            } else {
                None
            },
            _ => None,
        },
;

/// `Value::is_null`.
pub assume_specification[ serde_json::Value::is_null ](v: &serde_json::Value) -> (r: bool)
    ensures
        r == (json_of(*v) is Null),
;

/// `Value::as_array`: the items of a JSON array in their order, `None` for
/// any other value.
pub assume_specification<'a>[ serde_json::Value::as_array ](v: &'a serde_json::Value) -> (r:
    Option<&'a Vec<serde_json::Value>>)
    ensures
        match json_of(*v) {
            Json::Array(items) => r matches Some(a) && a@.len() == items.len() && forall|i: int|
                0 <= i < items.len() ==> json_of(#[trigger] a@[i]) == items[i],
            _ => r is None,
        },
;

/// Reads the string member `key` of `v`.
pub fn read_text(v: &serde_json::Value, key: &str) -> (r: Option<String>)
    ensures
        text_view(r) == text_member(json_of(*v), key@),
{
    match member(v, key) {
        Some(c) => match c.as_str() {
            Some(s) => Some(String::from_str(s)),
            None => None,
        },
        None => None,
    }
}

/// Reads the `i64` member `key` of `v`.
pub fn read_i64(v: &serde_json::Value, key: &str) -> (r: Option<i64>)
    ensures
        r == i64_member(json_of(*v), key@),
{
    match member(v, key) {
        Some(c) => c.as_i64(),
        None => None,
    }
}

/// Reads the `u64` member `key` of `v`.
pub fn read_u64(v: &serde_json::Value, key: &str) -> (r: Option<u64>)
    ensures
        r == u64_member(json_of(*v), key@),
{
    match member(v, key) {
        Some(c) => c.as_u64(),
        None => None,
    }
}

/// Reads the string member `key` of `v` where it may be missing or `null`.
pub fn read_optional_text(v: &serde_json::Value, key: &str) -> (r: Option<Option<String>>)
    ensures
        optional_text_view(r) == optional_text_member(json_of(*v), key@),
{
    match member(v, key) {
        None => Some(None),
        Some(c) => {
            if c.is_null() {
                Some(None)
            } else {
                match c.as_str() {
                    Some(s) => Some(Some(String::from_str(s))),
                    None => None,
                }
            }
        },
    }
}

/// Reads the `u64` member `key` of `v` where it may be missing or `null`.
pub fn read_optional_u64(v: &serde_json::Value, key: &str) -> (r: Option<Option<u64>>)
    ensures
        r == optional_u64_member(json_of(*v), key@),
{
    match member(v, key) {
        None => Some(None),
        Some(c) => {
            if c.is_null() {
                Some(None)
            } else {
                match c.as_u64() {
                    Some(n) => Some(Some(n)),
                    None => None,
                }
            }
        },
    }
}

} // verus!
