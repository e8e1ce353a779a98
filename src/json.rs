//! JSON encodings of the free-form columns, through `serde_json`.
//!
//! Each encoding is a function of its input alone; its outcome is named here
//! and the callers' contracts speak of those names.
use vstd::prelude::*;

verus! {

#[verifier::external_type_specification]
#[verifier::external_body]
pub struct ExJsonError(serde_json::Error);

/// Outcome of encoding a list of strings as a JSON array.
pub uninterp spec fn json_of_strings(items: Seq<Seq<char>>) -> Option<Seq<char>>;

/// Outcome of decoding a JSON array of strings.
pub uninterp spec fn strings_of_json(text: Seq<char>) -> Option<Seq<Seq<char>>>;

/// Outcome of encoding a string as a JSON string.
pub uninterp spec fn json_of_string(s: Seq<char>) -> Option<Seq<char>>;

/// Outcome of decoding a JSON string.
pub uninterp spec fn string_of_json(text: Seq<char>) -> Option<Seq<char>>;

/// Outcome of encoding string pairs as a JSON object.
pub uninterp spec fn json_of_object(entries: Seq<(Seq<char>, Seq<char>)>) -> Option<Seq<char>>;

/// Outcome of decoding a JSON object whose values are strings, as its entries
/// in key order.
pub uninterp spec fn object_of_json(text: Seq<char>) -> Option<Seq<(Seq<char>, Seq<char>)>>;

/// Relies on `serde_json::to_string` on a `Vec<String>`: a JSON array of the
/// strings, or an error; the outcome depends on the strings alone.
#[verifier::external_body]
pub(crate) fn encode_strings(items: &Vec<String>) -> (r: Result<String, serde_json::Error>)
    ensures
        match r {
            Ok(s) => json_of_strings(items.deep_view()) == Some(s@),
            Err(_) => json_of_strings(items.deep_view()) is None,
        },
{
    serde_json::to_string(items)
}

/// Relies on `serde_json::from_str` into a `Vec<String>`: the strings of a JSON
/// array, or an error; the outcome depends on the text alone.
#[verifier::external_body]
pub(crate) fn decode_strings(text: &str) -> (r: Result<Vec<String>, serde_json::Error>)
    ensures
        match r {
            Ok(v) => strings_of_json(text@) == Some(v.deep_view()),
            Err(_) => strings_of_json(text@) is None,
        },
{
    serde_json::from_str::<Vec<String>>(text)
}

/// Relies on `serde_json::to_string` on a `String`: a quoted JSON string, or an
/// error; the outcome depends on the string alone.
#[verifier::external_body]
pub(crate) fn encode_string(s: &String) -> (r: Result<String, serde_json::Error>)
    ensures
        match r {
            Ok(t) => json_of_string(s@) == Some(t@),
            Err(_) => json_of_string(s@) is None,
        },
{
    serde_json::to_string(s)
}

/// Relies on `serde_json::from_str` into a `String`: the string that a JSON
/// string literal denotes, or an error; the outcome depends on the text alone.
#[verifier::external_body]
pub(crate) fn decode_string(text: &str) -> (r: Result<String, serde_json::Error>)
    ensures
        match r {
            Ok(s) => string_of_json(text@) == Some(s@),
            Err(_) => string_of_json(text@) is None,
        },
{
    serde_json::from_str::<String>(text)
}

/// Relies on `serde_json::to_string` on a `BTreeMap<String, String>` made from
/// the entries: a JSON object, or an error; the outcome depends on the entries
/// alone.
#[verifier::external_body]
pub(crate) fn encode_object(entries: &Vec<(String, String)>) -> (r: Result<String, serde_json::Error>)
    ensures
        match r {
            Ok(s) => json_of_object(entries.deep_view()) == Some(s@),
            Err(_) => json_of_object(entries.deep_view()) is None,
        },
{
    let m: std::collections::BTreeMap<String, String> = entries.iter().cloned().collect();
    serde_json::to_string(&m)
}

/// Relies on `serde_json::from_str` into a `BTreeMap<String, String>`: the
/// entries of a JSON object with string values, in key order, or an error; the
/// outcome depends on the text alone.
#[verifier::external_body]
pub(crate) fn decode_object(text: &str) -> (r: Result<Vec<(String, String)>, serde_json::Error>)
    ensures
        match r {
            Ok(v) => object_of_json(text@) == Some(v.deep_view()),
            Err(_) => object_of_json(text@) is None,
        },
{
    serde_json::from_str::<std::collections::BTreeMap<String, String>>(text)
        .map(|m| m.into_iter().collect())
}

} // verus!
