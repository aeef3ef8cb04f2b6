//! Queries on JSON documents, answered by `serde_json`.

use vstd::prelude::*;

verus! {

/// Whether `data` is a JSON document.
pub uninterp spec fn json_valid(data: Seq<char>) -> bool;

/// The string at JSON pointer `pointer` of the JSON document `data`, or
/// `None` when `data` is not JSON or holds no string there.
pub uninterp spec fn json_str_at(data: Seq<char>, pointer: Seq<char>) -> Option<Seq<char>>;

/// The unsigned integer at JSON pointer `pointer` of the JSON document
/// `data`, or `None` when `data` is not JSON or holds no such integer there.
pub uninterp spec fn json_u64_at(data: Seq<char>, pointer: Seq<char>) -> Option<u64>;

/// Whether the JSON document `data` holds an array at JSON pointer
/// `pointer`; `false` when `data` is not JSON.
pub uninterp spec fn json_is_array_at(data: Seq<char>, pointer: Seq<char>) -> bool;

/// `serde_json::from_str::<Value>` succeeds on `data`, named `json_valid`.
#[verifier::external_body]
pub(crate) fn json_parses(data: &str) -> (r: bool)
    ensures
        r == json_valid(data@),
{
    serde_json::from_str::<serde_json::Value>(data).is_ok()
}

/// `serde_json::from_str::<Value>`, then `Value::pointer` and
/// `Value::as_str` on what it found: the string at `pointer` of the
/// document `data`, named `json_str_at`.
#[verifier::external_body]
pub(crate) fn json_string_at(data: &str, pointer: &str) -> (r: Option<String>)
    ensures
        r is Some == json_str_at(data@, pointer@) is Some,
        r is Some ==> r.unwrap()@ == json_str_at(data@, pointer@).unwrap(),
{
    match serde_json::from_str::<serde_json::Value>(data) {
        Ok(value) => value.pointer(pointer).and_then(|v| v.as_str()).map(|s| s.to_string()),
        Err(_) => None,
    }
}

/// `serde_json::from_str::<Value>`, then `Value::pointer` and
/// `Value::as_u64` on what it found: the unsigned integer at `pointer` of
/// the document `data`, named `json_u64_at`.
#[verifier::external_body]
pub(crate) fn json_u64_value_at(data: &str, pointer: &str) -> (r: Option<u64>)
    ensures
        r == json_u64_at(data@, pointer@),
{
    match serde_json::from_str::<serde_json::Value>(data) {
        Ok(value) => value.pointer(pointer).and_then(|v| v.as_u64()),
        Err(_) => None,
    }
}

/// `serde_json::from_str::<Value>`, then `Value::pointer` and
/// `Value::is_array` on what it found: whether the document `data` holds an
/// array at `pointer`, named `json_is_array_at`.
#[verifier::external_body]
pub(crate) fn json_array_at(data: &str, pointer: &str) -> (r: bool)
    ensures
        r == json_is_array_at(data@, pointer@),
{
    match serde_json::from_str::<serde_json::Value>(data) {
        Ok(value) => value.pointer(pointer).map_or(false, |v| v.is_array()),
        Err(_) => false,
    }
}

} // verus!
