//! JSON documents, read and written by `serde_json`.
//!
//! A document is opaque to the proofs of this library. What `serde_json`
//! says of one is given a name here, and the relay states its rules over
//! these names.

use std::collections::HashMap;
use vstd::prelude::*;

verus! {

/// `serde_json::Value`, a JSON document of any kind. Nothing of its
/// inside is visible here.
#[verifier::external_type_specification]
#[verifier::external_body]
pub struct ExJsonValue(serde_json::Value);

/// The document that `serde_json::from_str` reads from a text, or nothing
/// where it rejects the text.
pub uninterp spec fn json_document(text: Seq<char>) -> Option<serde_json::Value>;

/// The member called `name` of a document, as `serde_json::Value::get`
/// finds it: nothing unless the document is an object with that member.
pub uninterp spec fn json_member(document: serde_json::Value, name: Seq<char>) -> Option<
    serde_json::Value,
>;

/// The text of a document that is a string, as `serde_json::Value::as_str`
/// gives it: nothing for a document of any other kind.
pub uninterp spec fn json_string(document: serde_json::Value) -> Option<Seq<char>>;

/// The text that `serde_json::to_string` writes for a document, or nothing
/// where it fails.
pub uninterp spec fn json_text(document: serde_json::Value) -> Option<Seq<char>>;

/// Reads a text as JSON by `serde_json::from_str`. The outcome is a
/// function of the text alone, named `json_document`.
#[verifier::external_body]
pub(crate) fn parse_document(text: &str) -> (document: Option<serde_json::Value>)
    ensures
        document == json_document(text@),
{
    serde_json::from_str::<serde_json::Value>(text).ok()
}

/// Looks a member up by `serde_json::Value::get`. The outcome is a
/// function of document and name, named `json_member`.
#[verifier::external_body]
pub(crate) fn member<'a>(document: &'a serde_json::Value, name: &str) -> (found: Option<
    &'a serde_json::Value,
>)
    ensures
        match found {
            Some(m) => json_member(*document, name@) == Some(*m),
            None => json_member(*document, name@) is None,
        },
{
    document.get(name)
}

/// Reads a document as a string by `serde_json::Value::as_str`. The
/// outcome is a function of the document, named `json_string`.
#[verifier::external_body]
pub(crate) fn as_string<'a>(document: &'a serde_json::Value) -> (text: Option<&'a str>)
    ensures
        match text {
            Some(t) => json_string(*document) == Some(t@),
            None => json_string(*document) is None,
        },
{
    document.as_str()
}

/// Writes a document as text by `serde_json::to_string`; where that fails
/// the error's message comes back. Whether it fails, and the text it
/// writes, are a function of the document, named `json_text`.
#[verifier::external_body]
pub(crate) fn write_document(document: &serde_json::Value) -> (text: Result<String, String>)
    ensures
        match text {
            Ok(t) => json_text(*document) == Some(t@),
            Err(_) => json_text(*document) is None,
        },
{
    serde_json::to_string(document).map_err(|e| e.to_string())
}

/// What `serde_json::from_str` reads from a text as a map from strings to
/// strings: the map, or the message of the error it rejects the text with.
pub uninterp spec fn json_string_map(text: Seq<char>) -> Result<
    Map<Seq<char>, Seq<char>>,
    Seq<char>,
>;

/// Whether `pairs` lists the entries of `map`, in any order: every pair is
/// an entry of the map, and every name of the map has a pair.
pub open spec fn lists_entries(
    pairs: Seq<(String, String)>,
    map: Map<Seq<char>, Seq<char>>,
) -> bool {
    &&& forall|i: int|
        0 <= i < pairs.len() ==> map.contains_key((#[trigger] pairs[i]).0@) && map[pairs[i].0@]
            == pairs[i].1@
    &&& forall|name: Seq<char>| #[trigger]
        map.contains_key(name) ==> exists|i: int|
            0 <= i < pairs.len() && (#[trigger] pairs[i]).0@ == name
}

/// Reads a text as a JSON object of strings by `serde_json::from_str`, and
/// hands its entries out as pairs, in no particular order; where the text
/// is rejected the error's message comes back. Which map is read, or which
/// message is given, is a function of the text alone, named
/// `json_string_map`.
#[verifier::external_body]
pub(crate) fn parse_string_map(text: &str) -> (pairs: Result<Vec<(String, String)>, String>)
    ensures
        match pairs {
            Ok(list) => json_string_map(text@) matches Ok(map) && lists_entries(list@, map),
            Err(reason) => json_string_map(text@) matches Err(message) && message == reason@,
        },
{
    serde_json::from_str::<HashMap<String, String>>(text)
        .map(|map| map.into_iter().collect())
        .map_err(|e| e.to_string())
}

} // verus!
