//! The parts of `serde_json` that the libtest event reader relies on.
//!
//! A parsed JSON value is opaque to the proofs. What the event reader reads of
//! it (whether it is an object, and which members hold strings or unsigned
//! integers) is named here, and the lookups are stated over those names.

use vstd::prelude::*;
use serde_json::Value;

verus! {

#[verifier::external_type_specification]
#[verifier::external_body]
pub struct ExJsonValue(serde_json::Value);

#[verifier::external_type_specification]
#[verifier::external_body]
pub struct ExJsonError(serde_json::Error);

/// Whether a parsed JSON value is an object.
pub uninterp spec fn json_is_object(value: Value) -> bool;

/// The members of a parsed JSON object whose values are strings, by member name.
pub uninterp spec fn json_string_members(value: Value) -> Map<Seq<char>, Seq<char>>;

/// The members of a parsed JSON object whose values are numbers that `as_u64`
/// accepts, by member name.
pub uninterp spec fn json_u64_members(value: Value) -> Map<Seq<char>, u64>;

/// What `serde_json::from_str` makes of a text as a `serde_json::Value`: the
/// value, or `None` where the text is no JSON document. It depends on the text alone.
pub uninterp spec fn json_parse(text: Seq<char>) -> Option<Value>;

/// Parses `text` with `serde_json::from_str` into a `serde_json::Value`.
///
/// Claims that it succeeds exactly where the named parse gives a value, and
/// that the value is that one; of the error nothing is claimed.
#[verifier::external_body]
pub(crate) fn parse_json(text: &str) -> (parsed: Result<Value, serde_json::Error>)
    ensures
        parsed is Ok <==> json_parse(text@) is Some,
        parsed matches Ok(v) ==> json_parse(text@) == Some(v),
{
    serde_json::from_str::<Value>(text)
}

/// `Value::is_object`: claims only that the answer is the named property of the value.
#[verifier::external_body]
pub(crate) fn value_is_object(value: &Value) -> (is_object: bool)
    ensures
        is_object == json_is_object(*value),
{
    value.is_object()
}

/// `Value::get` with a string key, keeping the member only where it is a
/// `Value::String`: claims that the answer is the named string member, and that
/// there is none where the member is missing or no string.
#[verifier::external_body]
pub(crate) fn value_string_member(value: &Value, key: &str) -> (member: Option<String>)
    ensures
        match member {
            Some(s) => json_string_members(*value).contains_key(key@)
                && json_string_members(*value)[key@] == s@,
            None => !json_string_members(*value).contains_key(key@),
        },
{
    match value.get(key) {
        Some(Value::String(s)) => Some(s.clone()),
        _ => None,
    }
}

/// `Value::get` with a string key, followed by `Value::as_u64`: claims that the
/// answer is the named unsigned member, and that there is none where the member
/// is missing or `as_u64` refuses it.
#[verifier::external_body]
pub(crate) fn value_u64_member(value: &Value, key: &str) -> (member: Option<u64>)
    ensures
        match member {
            Some(n) => json_u64_members(*value).contains_key(key@)
                && json_u64_members(*value)[key@] == n,
            None => !json_u64_members(*value).contains_key(key@),
        },
{
    match value.get(key) {
        Some(m) => m.as_u64(),
        None => None,
    }
}

} // verus!
