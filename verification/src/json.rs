//! The JSON values that the engine carries without looking inside.

use serde_json::Value;
use vstd::prelude::*;

verus! {

#[verifier::external_type_specification]
#[verifier::external_body]
pub struct ExValue(Value);

/// `Value::Null`: the JSON value null. Nothing is claimed of it.
#[verifier::external_body]
pub(crate) fn null_value() -> (v: Value) {
    Value::Null
}

/// `Value::clone`: a copy that equals the value it was made from.
#[verifier::external_body]
pub(crate) fn copy_value(v: &Value) -> (copy: Value)
    ensures
        copy == *v,
{
    v.clone()
}

#[verifier::external_type_specification]
#[verifier::external_body]
pub struct ExJsonError(serde_json::Error);

/// The JSON text that `serde_json::to_string` writes for `v`; `None` where it
/// fails.
pub uninterp spec fn json_text(v: Value) -> Option<Seq<char>>;

/// The value that `serde_json::from_str` reads from `text`; `None` where it
/// fails.
pub uninterp spec fn json_value(text: Seq<char>) -> Option<Value>;

/// `serde_json::to_string` on a `Value`: the text named `json_text`, or the
/// crate's error where there is none.
#[verifier::external_body]
pub(crate) fn to_json_text(v: &Value) -> (r: Result<String, serde_json::Error>)
    ensures
        r.is_ok() ==> json_text(*v) == Some(r.unwrap()@),
        r.is_err() ==> json_text(*v).is_none(),
{
    serde_json::to_string(v)
}

/// `serde_json::from_str` to a `Value`: the value named `json_value`, or the
/// crate's error where there is none.
#[verifier::external_body]
pub(crate) fn parse_json(text: &str) -> (r: Result<Value, serde_json::Error>)
    ensures
        r.is_ok() ==> json_value(text@) == Some(r.unwrap()),
        r.is_err() ==> json_value(text@).is_none(),
{
    serde_json::from_str(text)
}

} // verus!
