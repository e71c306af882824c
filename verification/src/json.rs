//! The calls into `serde_json` that read a request. Nothing in this file is
//! proved: each contract names what the outside function returns.

use vstd::prelude::*;

verus! {

#[verifier::external_type_specification]
#[verifier::external_body]
pub struct ExJsonValue(serde_json::Value);

#[verifier::external_type_specification]
#[verifier::external_body]
pub struct ExJsonError(serde_json::Error);

/// What `serde_json::from_str` makes of a text: the document, or the error
/// that says why the text is no JSON document.
pub uninterp spec fn parsed_document(text: Seq<char>) -> Result<
    serde_json::Value,
    serde_json::Error,
>;

/// What `serde_json::Value::get` finds under a string key: the member of
/// that name if the value is an object that has one.
pub uninterp spec fn member_of(value: serde_json::Value, key: Seq<char>) -> Option<
    serde_json::Value,
>;

/// What `serde_json::Value::as_str` gives: the text, if the value is a
/// JSON string.
pub uninterp spec fn text_of(value: serde_json::Value) -> Option<Seq<char>>;

/// What `serde_json::Value::as_u64` gives: the number, if the value is an
/// integer that fits `u64`.
pub uninterp spec fn number_of(value: serde_json::Value) -> Option<u64>;

/// What a `serde_json::Error` prints as.
pub uninterp spec fn error_text(error: serde_json::Error) -> Seq<char>;

/// Calls `serde_json::from_str` for a `serde_json::Value`. The contract
/// gives the result the name `parsed_document` and claims no more than
/// that the same text always gives the same result.
#[verifier::external_body]
pub(crate) fn parse_document(text: &str) -> (result: Result<serde_json::Value, serde_json::Error>)
    ensures
        result == parsed_document(text@),
{
    serde_json::from_str::<serde_json::Value>(text)
}

/// Calls `serde_json::Value::get` with a string key. The contract gives the
/// result the name `member_of`.
#[verifier::external_body]
pub(crate) fn member<'a>(value: &'a serde_json::Value, key: &str) -> (result: Option<
    &'a serde_json::Value,
>)
    ensures
        match result {
            Some(found) => member_of(*value, key@) == Some(*found),
            None => member_of(*value, key@).is_none(),
        },
{
    value.get(key)
}

/// Calls `serde_json::Value::as_str`. The contract gives the result the
/// name `text_of`.
#[verifier::external_body]
pub(crate) fn as_text<'a>(value: &'a serde_json::Value) -> (result: Option<&'a str>)
    ensures
        match result {
            Some(text) => text_of(*value) == Some(text@),
            None => text_of(*value).is_none(),
        },
{
    value.as_str()
}

/// Calls `serde_json::Value::as_u64`. The contract gives the result the
/// name `number_of`.
#[verifier::external_body]
pub(crate) fn as_number(value: &serde_json::Value) -> (result: Option<u64>)
    ensures
        result == number_of(*value),
{
    value.as_u64()
}

/// Prints a `serde_json::Error` through its `Display`. The contract gives
/// the text the name `error_text`.
#[verifier::external_body]
pub(crate) fn describe(error: &serde_json::Error) -> (text: String)
    ensures
        text@ == error_text(*error),
{
    error.to_string()
}

} // verus!
