//! The JSON values the library builds and reads, through serde_json. A
//! value is opaque here; names stand for what serde_json computes.

use vstd::prelude::*;

verus! {

/// The value that `serde_json::from_str` reads from `text`; nothing when
/// serde_json refuses the text.
pub uninterp spec fn json_value_of(text: Seq<char>) -> Option<serde_json::Value>;

/// The member `key` of a JSON value, as `Value::get` gives it: nothing when
/// the value is not an object or has no such member.
pub uninterp spec fn json_member(v: serde_json::Value, key: Seq<char>) -> Option<serde_json::Value>;

/// The text of a JSON string, as `Value::as_str` gives it; nothing for any
/// other kind of value.
pub uninterp spec fn json_string(v: serde_json::Value) -> Option<Seq<char>>;

/// The JSON object whose members are the given keys, each with the given
/// text as a JSON string, as serde_json's `Map` builds it.
pub uninterp spec fn json_object_of(entries: Seq<(Seq<char>, Seq<char>)>) -> serde_json::Value;

/// The items of a JSON array, as `Value::as_array` gives them; nothing for
/// any other kind of value.
pub uninterp spec fn json_array(v: serde_json::Value) -> Option<Seq<serde_json::Value>>;

/// The number of a JSON value, as `Value::as_u64` gives it: nothing unless
/// the value is a whole number that fits in 64 unsigned bits.
pub uninterp spec fn json_u64(v: serde_json::Value) -> Option<u64>;

/// The truth value of a JSON boolean, as `Value::as_bool` gives it; nothing
/// for any other kind of value.
pub uninterp spec fn json_bool(v: serde_json::Value) -> Option<bool>;

/// The text of an optional string.
pub open spec fn opt_view(s: Option<String>) -> Option<Seq<char>> {
    match s {
        Some(t) => Some(t@),
        None => None,
    }
}

/// The text of the member `key` of `v`: nothing when `v` has no such member
/// or it is not a string.
pub open spec fn member_text(v: serde_json::Value, key: Seq<char>) -> Option<Seq<char>> {
    match json_member(v, key) {
        Some(m) => json_string(m),
        None => None,
    }
}

/// The member at `key`, then `inner`, of `v`: nothing where either is
/// missing.
pub open spec fn member_at(v: serde_json::Value, key: Seq<char>, inner: Seq<char>) -> Option<
    serde_json::Value,
> {
    match json_member(v, key) {
        Some(m) => json_member(m, inner),
        None => None,
    }
}

/// Reads JSON text with `serde_json::from_str`; on failure, the text of
/// serde_json's error.
///
/// The contract names the value read; serde_json's error message is not
/// stated.
#[verifier::external_body]
pub(crate) fn parse_json(text: &str) -> (res: Result<serde_json::Value, String>)
    ensures
        match res {
            Ok(v) => json_value_of(text@) == Some(v),
            Err(_) => json_value_of(text@) is None,
        },
{
    serde_json::from_str(text).map_err(|e| e.to_string())
}

/// The member `key` of `v`: calls `Value::get` and clones what it finds.
#[verifier::external_body]
pub(crate) fn member(v: &serde_json::Value, key: &str) -> (res: Option<serde_json::Value>)
    ensures
        res == json_member(*v, key@),
{
    v.get(key).cloned()
}

/// The text of a JSON string: calls `Value::as_str` and copies the text.
#[verifier::external_body]
pub(crate) fn string_of(v: &serde_json::Value) -> (res: Option<String>)
    ensures
        match res {
            Some(s) => json_string(*v) == Some(s@),
            None => json_string(*v) is None,
        },
{
    v.as_str().map(|s| s.to_string())
}

/// The items of a JSON array: calls `Value::as_array` and clones them.
#[verifier::external_body]
pub(crate) fn items_of(v: &serde_json::Value) -> (res: Option<Vec<serde_json::Value>>)
    ensures
        match res {
            Some(items) => json_array(*v) == Some(items@),
            None => json_array(*v) is None,
        },
{
    v.as_array().cloned()
}

/// The number of a JSON value: calls `Value::as_u64`.
#[verifier::external_body]
pub(crate) fn u64_of(v: &serde_json::Value) -> (res: Option<u64>)
    ensures
        res == json_u64(*v),
{
    v.as_u64()
}

/// The truth value of a JSON boolean: calls `Value::as_bool`.
#[verifier::external_body]
pub(crate) fn bool_of(v: &serde_json::Value) -> (res: Option<bool>)
    ensures
        res == json_bool(*v),
{
    v.as_bool()
}

/// The text of the member `key` of `v`, when it is a string.
pub fn member_string(v: &serde_json::Value, key: &str) -> (res: Option<String>)
    ensures
        opt_view(res) == member_text(*v, key@),
{
    match member(v, key) {
        Some(m) => string_of(&m),
        None => None,
    }
}

/// The member at `key`, then `inner`, of `v`.
pub fn member_in(v: &serde_json::Value, key: &str, inner: &str) -> (res: Option<serde_json::Value>)
    ensures
        res == member_at(*v, key@, inner@),
{
    match member(v, key) {
        Some(m) => member(&m, inner),
        None => None,
    }
}

/// The JSON object `{}`: a new `serde_json::Map` as `Value::Object`.
#[verifier::external_body]
pub(crate) fn empty_json_object() -> (res: serde_json::Value)
    ensures
        res == json_object_of(Seq::empty()),
{
    serde_json::Value::Object(serde_json::Map::new())
}

/// The JSON object `{key: value}`: `Map::insert` of `Value::String` into a
/// new `serde_json::Map`, as `Value::Object`.
#[verifier::external_body]
pub(crate) fn json_string_object(key: &str, value: &str) -> (res: serde_json::Value)
    ensures
        res == json_object_of(seq![(key@, value@)]),
{
    let mut map = serde_json::Map::new();
    map.insert(key.to_string(), serde_json::Value::String(value.to_string()));
    serde_json::Value::Object(map)
}

} // verus!
