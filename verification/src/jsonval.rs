//! Trusted boundary to serde_json. Descriptor documents arrive as JSON trees;
//! the tree type is opaque to the verifier, so each accessor the engine needs
//! is declared here with the behaviour the serde_json source shows, and all
//! interpretation of what was read happens in verified code.
use vstd::prelude::*;

use serde_json::Value;

verus! {

#[verifier::external_type_specification]
#[verifier::external_body]
pub struct ExValue(Value);

#[verifier::external_type_specification]
#[verifier::external_body]
pub struct ExJsonError(serde_json::Error);

/// Relies on serde_json::from_str::<Value>: parses JSON text into a tree,
/// `Err` when the text is not valid JSON.
#[verifier::external_body]
pub fn json_parse(text: &str) -> (r: Result<Value, serde_json::Error>) {
    serde_json::from_str(text)
}

/// Relies on serde_json::Value::get with a string index: the value under a
/// key of a JSON object, `None` for non-objects and missing keys.
#[verifier::external_body]
pub fn json_get<'a>(v: &'a Value, key: &str) -> (r: Option<&'a Value>) {
    v.get(key)
}

/// Relies on serde_json::Value::as_str: the contained string, `None` for
/// non-strings.
#[verifier::external_body]
pub fn json_as_str<'a>(v: &'a Value) -> (r: Option<&'a str>) {
    v.as_str()
}

/// Relies on serde_json::Value::as_u64: the contained number when it is an
/// unsigned integer, `None` otherwise.
#[verifier::external_body]
pub fn json_as_u64(v: &Value) -> (r: Option<u64>) {
    v.as_u64()
}

/// Relies on serde_json::Value::as_i64: the contained number when it is a
/// signed integer, `None` otherwise.
#[verifier::external_body]
pub fn json_as_i64(v: &Value) -> (r: Option<i64>) {
    v.as_i64()
}

/// Relies on serde_json::Value::as_array: the element vector of a JSON
/// array, `None` for non-arrays.
#[verifier::external_body]
pub fn json_as_array<'a>(v: &'a Value) -> (r: Option<&'a Vec<Value>>) {
    v.as_array()
}

/// Relies on serde_json::Value::is_null: whether the value is JSON null.
#[verifier::external_body]
pub fn json_is_null(v: &Value) -> (r: bool) {
    v.is_null()
}

/// Relies on serde_json::Value::is_string: whether the value is a JSON
/// string.
#[verifier::external_body]
pub fn json_is_string(v: &Value) -> (r: bool) {
    v.is_string()
}

/// Relies on serde_json::Value::as_object: the key/value pairs of a JSON
/// object in iteration order, cloned into owned values, `None` for
/// non-objects.
#[verifier::external_body]
pub fn json_object_entries(v: &Value) -> (r: Option<Vec<(String, Value)>>) {
    v.as_object().map(|m| m.iter().map(|(k, x)| (k.clone(), x.clone())).collect())
}

} // verus!
