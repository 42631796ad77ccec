//! JSON texts: reading, writing back, comparing.

use vstd::prelude::*;

verus! {

/// The compact rendering of the JSON value that `text` holds; `None` where
/// `text` is not JSON.
pub uninterp spec fn json_compact_form(text: Seq<char>) -> Option<Seq<char>>;

/// The indented rendering of the JSON value that `text` holds; `None` where
/// `text` is not JSON.
pub uninterp spec fn json_pretty_form(text: Seq<char>) -> Option<Seq<char>>;

/// Whether the JSON values that `left` and `right` hold are equal; `None`
/// where one of them is not JSON.
pub uninterp spec fn json_same_value(left: Seq<char>, right: Seq<char>) -> Option<bool>;

/// Calls `serde_json::from_str` for a `serde_json::Value` and
/// `serde_json::to_string` on it. The contract names the outcome
/// `json_compact_form`; the parser and the printer are not proved here.
#[verifier::external_body]
pub(crate) fn compact(text: &str) -> (written: Option<String>)
    ensures
        written.deep_view() == json_compact_form(text@),
{
    match serde_json::from_str::<serde_json::Value>(text) {
        Ok(value) => serde_json::to_string(&value).ok(),
        Err(_) => None,
    }
}

/// Calls `serde_json::from_str` for a `serde_json::Value` and
/// `serde_json::to_string_pretty` on it. The contract names the outcome
/// `json_pretty_form`.
#[verifier::external_body]
pub(crate) fn pretty(text: &str) -> (indented: Option<String>)
    ensures
        indented.deep_view() == json_pretty_form(text@),
{
    match serde_json::from_str::<serde_json::Value>(text) {
        Ok(value) => serde_json::to_string_pretty(&value).ok(),
        Err(_) => None,
    }
}

/// Calls `serde_json::from_str` on both texts and compares the two
/// `serde_json::Value`s with `==`: objects compare as maps, whatever the order
/// of their keys, arrays element by element. The contract names the outcome
/// `json_same_value`.
#[verifier::external_body]
fn compare(left: &str, right: &str) -> (same: Option<bool>)
    ensures
        same == json_same_value(left@, right@),
{
    match (serde_json::from_str::<serde_json::Value>(left), serde_json::from_str::<serde_json::Value>(right)) {
        (Ok(first), Ok(second)) => Some(first == second),
        _ => None,
    }
}

/// `text` is JSON.
pub open spec fn is_json(text: Seq<char>) -> bool {
    json_compact_form(text) is Some
}

/// Both texts are JSON and hold the same value.
pub open spec fn deep_equal(left: Seq<char>, right: Seq<char>) -> bool {
    json_same_value(left, right) == Some(true)
}

/// Tells whether `text` is JSON.
pub fn is_valid(text: &str) -> (valid: bool)
    ensures
        valid == is_json(text@),
{
    compact(text).is_some()
}

/// The verdict on a comparison: a text that is not JSON equals nothing.
pub fn same(compared: Option<bool>) -> (equal: bool)
    ensures
        equal == (compared == Some(true)),
{
    match compared {
        Some(outcome) => outcome,
        None => false,
    }
}

/// Tells whether two texts hold the same JSON value.
pub fn equals(left: &str, right: &str) -> (equal: bool)
    ensures
        equal == deep_equal(left@, right@),
{
    same(compare(left, right))
}

} // verus!
