//! Trusted bindings to the JSON parser, under which the configuration is
//! read: the outside types, names for what the parser yields, and thin
//! wrappers whose contracts state what the parser's own source shows.

use vstd::prelude::*;

verus! {

#[verifier::external_type_specification]
#[verifier::external_body]
pub struct ExJsonValue(serde_json::Value);

#[verifier::external_type_specification]
#[verifier::external_body]
pub struct ExJsonError(serde_json::Error);

/// What a parsed JSON value's top level holds, as far as this library
/// reads it: one entry per key of the top-level object, carrying the
/// field's text where the field is a string. A value whose top level is
/// not an object holds no keys.
pub uninterp spec fn json_str_fields(v: serde_json::Value) -> Map<Seq<char>, Option<Seq<char>>>;

/// The text of a JSON value, where that value is a string.
pub uninterp spec fn json_str_of(v: serde_json::Value) -> Option<Seq<char>>;

/// What parsing yields on the text `s`: the string-field map of the parsed
/// value, where `s` is a well-formed JSON document, and nothing otherwise.
pub uninterp spec fn json_of(s: Seq<char>) -> Option<Map<Seq<char>, Option<Seq<char>>>>;

/// Relies on serde_json::from_str: parsing is a function of the text
/// alone, succeeds exactly on well-formed JSON, and yields the value that
/// `json_of` projects.
#[verifier::external_body]
pub(crate) fn parse_json(s: &str) -> (r: Result<serde_json::Value, serde_json::Error>)
    ensures
        r is Ok <==> json_of(s@) is Some,
        r matches Ok(v) ==> json_of(s@) == Some(json_str_fields(v)),
{
    serde_json::from_str::<serde_json::Value>(s)
}

/// Relies on serde_json::Value::get with a string key: for an object, the
/// field under that key; nothing for a missing key or a non-object.
#[verifier::external_body]
pub(crate) fn json_get<'a>(v: &'a serde_json::Value, key: &str) -> (r: Option<
    &'a serde_json::Value,
>)
    ensures
        r is Some <==> json_str_fields(*v).dom().contains(key@),
        r matches Some(f) ==> json_str_of(*f) == json_str_fields(*v)[key@],
{
    v.get(key)
}

/// Relies on serde_json::Value::as_str: the text of a string value, and
/// nothing for any other value.
#[verifier::external_body]
pub(crate) fn json_as_str(v: &serde_json::Value) -> (r: Option<String>)
    ensures
        r is Some <==> json_str_of(*v) is Some,
        r matches Some(s) ==> json_str_of(*v) == Some(s@),
{
    match v.as_str() {
        Some(s) => Some(s.to_owned()),
        None => None,
    }
}

} // verus!
