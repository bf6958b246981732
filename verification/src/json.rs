//! What the library reads of JSON documents, through `serde_json`.

use vstd::prelude::*;

verus! {

/// Whether `doc` is one well-formed JSON value (`serde_json::from_slice`
/// into a `serde_json::Value` succeeds).
pub uninterp spec fn json_valid(doc: Seq<u8>) -> bool;

/// The string held by member `key` of the top-level object of `doc`; none
/// when `doc` is not valid JSON, not an object, lacks `key`, or holds a
/// non-string there.
pub uninterp spec fn json_str_member(doc: Seq<u8>, key: Seq<char>) -> Option<Seq<char>>;

/// The string held by member `key` of the object at member `outer` of the
/// top-level object of `doc`, under the same conditions.
pub uninterp spec fn json_nested_str_member(doc: Seq<u8>, outer: Seq<char>, key: Seq<char>) -> Option<
    Seq<char>,
>;

/// Whether `doc` is valid JSON whose top level is an object with member `key`.
pub uninterp spec fn json_has_member(doc: Seq<u8>, key: Seq<char>) -> bool;

/// Whether `doc` parses as JSON (`serde_json::from_slice::<Value>` is `Ok`).
#[verifier::external_body]
pub(crate) fn is_json(doc: &[u8]) -> (r: bool)
    ensures
        r == json_valid(doc@),
{
    serde_json::from_slice::<serde_json::Value>(doc).is_ok()
}

/// `serde_json::from_slice::<Value>` followed by `Value::get(key)` and
/// `Value::as_str`: the string at a top-level member. A result implies that
/// the document parsed.
#[verifier::external_body]
pub(crate) fn str_member(doc: &[u8], key: &str) -> (r: Option<String>)
    ensures
        r matches Some(s) ==> json_str_member(doc@, key@) == Some(s@),
        r is None ==> json_str_member(doc@, key@) is None,
        r is Some ==> json_valid(doc@),
{
    serde_json::from_slice::<serde_json::Value>(doc).ok()?.get(key)?.as_str().map(str::to_owned)
}

/// `serde_json::from_slice::<Value>` followed by two `Value::get` steps and
/// `Value::as_str`: the string at a member of a member object. A result
/// implies that the document parsed.
#[verifier::external_body]
pub(crate) fn nested_str_member(doc: &[u8], outer: &str, key: &str) -> (r: Option<String>)
    ensures
        r matches Some(s) ==> json_nested_str_member(doc@, outer@, key@) == Some(s@),
        r is None ==> json_nested_str_member(doc@, outer@, key@) is None,
        r is Some ==> json_valid(doc@),
{
    serde_json::from_slice::<serde_json::Value>(doc).ok()?.get(outer)?.get(key)?.as_str().map(
        str::to_owned,
    )
}

/// `serde_json::from_slice::<Value>` followed by `Value::get(key)`: whether
/// the top-level object has member `key`. A member implies that the document
/// parsed.
#[verifier::external_body]
pub(crate) fn has_member(doc: &[u8], key: &str) -> (r: bool)
    ensures
        r == json_has_member(doc@, key@),
        r ==> json_valid(doc@),
{
    match serde_json::from_slice::<serde_json::Value>(doc) {
        Ok(v) => v.get(key).is_some(),
        Err(_) => false,
    }
}


/// The pretty form of a JSON text (`serde_json::from_str::<Value>` followed
/// by `serde_json::to_string_pretty`, two-space indented, members in
/// document order); none when the text is not JSON.
pub uninterp spec fn json_pretty_of(text: Seq<char>) -> Option<Seq<char>>;

/// `serde_json::from_str::<Value>` followed by `serde_json::to_string_pretty`:
/// the text pretty-printed, or none when either step fails. What the pretty
/// form looks like is left to the name.
#[verifier::external_body]
pub(crate) fn pretty_json(text: &str) -> (r: Option<String>)
    ensures
        match r {
            Some(p) => json_pretty_of(text@) == Some(p@),
            None => json_pretty_of(text@) is None,
        },
{
    match serde_json::from_str::<serde_json::Value>(text) {
        Ok(v) => serde_json::to_string_pretty(&v).ok(),
        Err(_) => None,
    }
}

/// The kind of a JSON document's top-level value.
#[derive(Debug, Clone, Copy, PartialEq, Eq, Structural)]
pub enum JsonKind {
    /// Not one well-formed JSON value.
    Invalid,
    Null,
    Bool,
    Number,
    String,
    Array,
    Object,
}

/// The kind of the value `doc` parses to (`Invalid` when it does not parse).
pub uninterp spec fn json_kind_of(doc: Seq<u8>) -> JsonKind;

/// `serde_json::from_slice::<Value>` and the variant of the `Value` it
/// gives: the kind of the document's top-level value. A document parses
/// exactly when its kind is not `Invalid`.
#[verifier::external_body]
pub(crate) fn json_kind(doc: &[u8]) -> (r: JsonKind)
    ensures
        r == json_kind_of(doc@),
        (r == JsonKind::Invalid) == !json_valid(doc@),
{
    match serde_json::from_slice::<serde_json::Value>(doc) {
        Err(_) => JsonKind::Invalid,
        Ok(serde_json::Value::Null) => JsonKind::Null,
        Ok(serde_json::Value::Bool(_)) => JsonKind::Bool,
        Ok(serde_json::Value::Number(_)) => JsonKind::Number,
        Ok(serde_json::Value::String(_)) => JsonKind::String,
        Ok(serde_json::Value::Array(_)) => JsonKind::Array,
        Ok(serde_json::Value::Object(_)) => JsonKind::Object,
    }
}

} // verus!
