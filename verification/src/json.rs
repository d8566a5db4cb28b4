//! The JSON documents that the management surface prints, as `serde_json`
//! reads them. A document is opaque here: the library learns what it holds
//! only through the functions below, whose contracts are believed and not
//! proved. Each says that the result of a call into `serde_json` depends on
//! the arguments alone, and gives that result a name.

use vstd::prelude::*;

verus! {

/// A JSON document of `serde_json`.
#[verifier::external_type_specification]
#[verifier::external_body]
pub struct ExJsonValue(serde_json::Value);

/// The reason why `serde_json` could not read a text.
#[verifier::external_type_specification]
#[verifier::external_body]
pub struct ExJsonError(serde_json::Error);

/// The elements of the JSON array that `text` holds, as
/// `serde_json::from_str` reads them into a `Vec<Value>`; `None` where it
/// reports an error.
pub uninterp spec fn json_array_items(text: Seq<char>) -> Option<Seq<serde_json::Value>>;

/// The JSON document that `text` holds, as `serde_json::from_str` reads it
/// into a `Value`; `None` where it reports an error.
pub uninterp spec fn json_document(text: Seq<char>) -> Option<serde_json::Value>;

/// The string that `doc` has under `key`: what `Value::as_str` gives for
/// `doc[key]`. `None` where `doc` is no object, has no such member, or has
/// one that is no string.
pub uninterp spec fn member_text(doc: serde_json::Value, key: Seq<char>) -> Option<Seq<char>>;

/// The number that `doc` has under `key`: what `Value::as_u64` gives for
/// `doc[key]`. `None` where `doc` is no object, has no such member, or has
/// one that `serde_json` does not hold as a non-negative integer.
pub uninterp spec fn member_count(doc: serde_json::Value, key: Seq<char>) -> Option<u64>;

/// Calls `serde_json::from_str` at type `Vec<Value>`. Believed, not
/// proved: whether it succeeds, and the elements it gives, depend on the
/// text alone.
#[verifier::external_body]
pub(crate) fn parse_array(text: &str) -> (r: Result<Vec<serde_json::Value>, serde_json::Error>)
    ensures
        r matches Ok(items) ==> json_array_items(text@) == Some(items@),
        r is Err ==> json_array_items(text@) is None,
{
    serde_json::from_str::<Vec<serde_json::Value>>(text)
}

/// Calls `serde_json::from_str` at type `Value`. Believed, not proved:
/// whether it succeeds, and the document it gives, depend on the text
/// alone.
#[verifier::external_body]
pub(crate) fn parse_document(text: &str) -> (r: Result<serde_json::Value, serde_json::Error>)
    ensures
        r matches Ok(doc) ==> json_document(text@) == Some(doc),
        r is Err ==> json_document(text@) is None,
{
    serde_json::from_str::<serde_json::Value>(text)
}

/// Indexes a `Value` by a key and calls `Value::as_str` on what is found.
/// Believed, not proved: the result depends on the document and the key
/// alone.
#[verifier::external_body]
pub(crate) fn text_member(doc: &serde_json::Value, key: &str) -> (r: Option<String>)
    ensures
        r matches Some(s) ==> member_text(*doc, key@) == Some(s@),
        r is None ==> member_text(*doc, key@) is None,
{
    match doc[key].as_str() {
        Some(s) => Some(s.to_string()),
        None => None,
    }
}

/// Indexes a `Value` by a key and calls `Value::as_u64` on what is found.
/// Believed, not proved: the result depends on the document and the key
/// alone.
#[verifier::external_body]
pub(crate) fn count_member(doc: &serde_json::Value, key: &str) -> (r: Option<u64>)
    ensures
        r == member_count(*doc, key@),
{
    doc[key].as_u64()
}

} // verus!
