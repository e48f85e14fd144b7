//! Reading values out of JSON text (serde_json).  Each read parses the
//! text and follows a JSON pointer (RFC 6901, as `Value::pointer` does);
//! what it finds is named, since a JSON parser takes pages to state.

use vstd::prelude::*;

use crate::nodeshell::llm_sdk::opt_str;

verus! {

/// The error message of parsing `text` as a JSON document, or `None` when
/// it parses.
pub uninterp spec fn json_error_of(text: Seq<char>) -> Option<Seq<char>>;

/// The string found at `pointer` in the JSON document `text`, if `text`
/// parses and a string is there.
pub uninterp spec fn json_str_at_of(text: Seq<char>, pointer: Seq<char>) -> Option<Seq<char>>;

/// The unsigned integer found at `pointer` in the JSON document `text`, if
/// `text` parses and a number that fits a `u64` is there.
pub uninterp spec fn json_u64_at_of(text: Seq<char>, pointer: Seq<char>) -> Option<u64>;

/// The length of the array found at `pointer` in the JSON document `text`,
/// if `text` parses and an array is there.
pub uninterp spec fn json_len_at_of(text: Seq<char>, pointer: Seq<char>) -> Option<usize>;

/// Parses `text` with `serde_json::from_str::<Value>` and returns the
/// error's `Display` text when it fails.  Claimed: the result is
/// `json_error_of(text)`; nothing more is said of it.
#[verifier::external_body]
pub(crate) fn json_error(text: &str) -> (r: Option<String>)
    ensures
        opt_str(r) == json_error_of(text@),
{
    serde_json::from_str::<serde_json::Value>(text).err().map(|e| e.to_string())
}

/// Parses `text` with `serde_json::from_str::<Value>`, then
/// `Value::pointer(pointer)` and `Value::as_str`.  Claimed: the result is
/// `json_str_at_of(text, pointer)`; nothing more is said of it.
#[verifier::external_body]
pub(crate) fn json_str_at(text: &str, pointer: &str) -> (r: Option<String>)
    ensures
        opt_str(r) == json_str_at_of(text@, pointer@),
{
    match serde_json::from_str::<serde_json::Value>(text) {
        Ok(v) => v.pointer(pointer).and_then(serde_json::Value::as_str).map(String::from),
        Err(_) => None,
    }
}

/// Parses `text` with `serde_json::from_str::<Value>`, then
/// `Value::pointer(pointer)` and `Value::as_u64`.  Claimed: the result is
/// `json_u64_at_of(text, pointer)`; nothing more is said of it.
#[verifier::external_body]
pub(crate) fn json_u64_at(text: &str, pointer: &str) -> (r: Option<u64>)
    ensures
        r == json_u64_at_of(text@, pointer@),
{
    match serde_json::from_str::<serde_json::Value>(text) {
        Ok(v) => v.pointer(pointer).and_then(serde_json::Value::as_u64),
        Err(_) => None,
    }
}

/// Parses `text` with `serde_json::from_str::<Value>`, then
/// `Value::pointer(pointer)`, `Value::as_array` and `Vec::len`.  Claimed:
/// the result is `json_len_at_of(text, pointer)`; nothing more is said of
/// it.
#[verifier::external_body]
pub(crate) fn json_len_at(text: &str, pointer: &str) -> (r: Option<usize>)
    ensures
        r == json_len_at_of(text@, pointer@),
{
    match serde_json::from_str::<serde_json::Value>(text) {
        Ok(v) => v.pointer(pointer).and_then(serde_json::Value::as_array).map(Vec::len),
        Err(_) => None,
    }
}

} // verus!
