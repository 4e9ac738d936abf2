//! The part of `serde_json` that the parser leans on: decoding one text into
//! a JSON value, looking up a member of an object, and reading a string.
//! Nothing here is proved; each contract says what the call is taken to do.

use vstd::prelude::*;

verus! {

/// `serde_json::Value`, a decoded JSON value. Nothing is known of what is
/// inside one but through the functions below.
#[verifier::external_type_specification]
#[verifier::external_body]
pub struct ExJsonValue(serde_json::Value);

/// `serde_json::Error`, why a text could not be decoded. It is never looked
/// into.
#[verifier::external_type_specification]
#[verifier::external_body]
pub struct ExJsonError(serde_json::Error);

/// The JSON value that a text decodes to; none when the text is not exactly
/// one JSON value.
pub uninterp spec fn json_document(text: Seq<char>) -> Option<serde_json::Value>;

/// The member of a JSON object under a key; none when the value is no object
/// or has no such member.
pub uninterp spec fn json_member(value: serde_json::Value, key: Seq<char>) -> Option<
    serde_json::Value,
>;

/// The text of a JSON string; none when the value is not a string.
pub uninterp spec fn json_text(value: serde_json::Value) -> Option<Seq<char>>;

/// `serde_json::from_str` at the type `serde_json::Value`: the decoded value,
/// or the error that the decoder raised. Which texts decode, and to what, is
/// left to the decoder; the contract only names its answer.
#[verifier::external_body]
pub(crate) fn decode(text: &str) -> (r: Result<serde_json::Value, serde_json::Error>)
    ensures
        r is Ok <==> json_document(text@) is Some,
        r is Ok ==> Some(r->Ok_0) == json_document(text@),
{
    serde_json::from_str::<serde_json::Value>(text)
}

/// `serde_json::Value::get` with a string key: the member of an object under
/// that key.
#[verifier::external_body]
pub(crate) fn member<'a>(value: &'a serde_json::Value, key: &str) -> (r: Option<
    &'a serde_json::Value,
>)
    ensures
        r is Some <==> json_member(*value, key@) is Some,
        r is Some ==> Some(*r->Some_0) == json_member(*value, key@),
{
    value.get(key)
}

/// `serde_json::Value::as_str`, copied into a `String`: the text of a JSON
/// string.
#[verifier::external_body]
pub(crate) fn text_of(value: &serde_json::Value) -> (r: Option<String>)
    ensures
        r is Some <==> json_text(*value) is Some,
        r is Some ==> Some(r->Some_0@) == json_text(*value),
{
    match value.as_str() {
        Some(s) => Some(s.to_string()),
        None => None,
    }
}

} // verus!
