//! JSON documents as text: reading relaxed and strict JSON, and writing JSON.
//!
//! The grammar work is done by the `jsonc_parser` and `serde_json` crates. What
//! they return for a text is given a name here; the functions of this module
//! state their results over those names.

use vstd::prelude::*;
use crate::json::{well_formed, Json, JsonNumber, JsonValue};
use serde_json::Value;

verus! {

#[verifier::external_type_specification]
#[verifier::external_body]
pub struct ExValue(Value);

/// What `jsonc_parser::parse_to_serde_value` makes of a text when asked for an
/// optional `serde_json::Value` with the default options: the document, nothing
/// for a text that holds no value (or only `null`), or the message of the
/// error.
pub uninterp spec fn relaxed_document(text: Seq<char>) -> Result<Option<JsonValue>, Seq<char>>;

/// What `serde_json::from_str` makes of a text when asked for a
/// `serde_json::Value`: the document, or the message of the error.
pub uninterp spec fn strict_document(text: Seq<char>) -> Result<JsonValue, Seq<char>>;

/// What `serde_json::to_string_pretty` writes for a document, or the message of
/// the error.
pub uninterp spec fn pretty_text(document: JsonValue) -> Result<Seq<char>, Seq<char>>;

/// The model of the outcome of reading a relaxed document.
pub open spec fn relaxed_view(r: Result<Option<Json>, String>) -> Result<
    Option<JsonValue>,
    Seq<char>,
> {
    match r {
        Ok(Some(j)) => Ok(Some(j@)),
        Ok(None) => Ok(None),
        Err(message) => Err(message@),
    }
}

/// The model of the outcome of reading a strict document.
pub open spec fn strict_view(r: Result<Json, String>) -> Result<JsonValue, Seq<char>> {
    match r {
        Ok(j) => Ok(j@),
        Err(message) => Err(message@),
    }
}

/// The model of the outcome of writing a document.
pub open spec fn text_view(r: Result<String, String>) -> Result<Seq<char>, Seq<char>> {
    match r {
        Ok(text) => Ok(text@),
        Err(message) => Err(message@),
    }
}

/// Copies the number that a `serde_json::Value` holds: an integer that
/// `as_u64` returns becomes `Unsigned`, another one that `as_i64` returns
/// becomes `Negative`, and any other number becomes `Real` with the text that
/// `serde_json` prints for it.
#[verifier::external_body]
fn number_from_value(v: &Value) -> JsonNumber {
    match (v.as_u64(), v.as_i64()) {
        (Some(u), _) => JsonNumber::Unsigned(u),
        (None, Some(i)) => JsonNumber::Negative(i),
        (None, None) => JsonNumber::Real(v.to_string()),
    }
}

/// Copies a `serde_json::Value` into a `Json`, part by part.
#[verifier::external_body]
fn json_from_value(v: &Value) -> Json {
    match v {
        Value::Null => Json::Null,
        Value::Bool(b) => Json::Bool(*b),
        Value::Number(_) => Json::Number(number_from_value(v)),
        Value::String(s) => Json::Text(s.clone()),
        Value::Array(a) => Json::Array(a.iter().map(json_from_value).collect()),
        Value::Object(m) => Json::Object(
            m.iter().map(|(k, x)| (k.clone(), json_from_value(x))).collect()),
    }
}

/// Copies a number into a `serde_json::Value`; the message of `serde_json` if
/// a `Real` number holds a text that it does not read as a number. The text of
/// a number that was read is the shortest that gives the number back, and
/// `serde_json` is built to read it back exactly.
#[verifier::external_body]
fn value_from_number(n: &JsonNumber) -> Result<Value, String> {
    match n {
        JsonNumber::Unsigned(u) => Ok(Value::from(*u)),
        JsonNumber::Negative(i) => Ok(Value::from(*i)),
        JsonNumber::Real(text) => match text.parse() {
            Ok(number) => Ok(Value::Number(number)),
            Err::<_, serde_json::Error>(e) => Err(e.to_string()),
        },
    }
}

/// Copies a `Json` into a `serde_json::Value`, part by part; the message of the
/// first number in it that cannot be copied, if there is one.
#[verifier::external_body]
fn value_from_json(j: &Json) -> Result<Value, String> {
    Ok(match j {
        Json::Null => Value::Null,
        Json::Bool(b) => Value::Bool(*b),
        Json::Number(n) => value_from_number(n)?,
        Json::Text(s) => Value::String(s.clone()),
        Json::Array(a) => Value::Array(a.iter().map(value_from_json).collect::<Result<_, _>>()?),
        Json::Object(m) => Value::Object(
            m.iter().map(|(k, x)| Ok((k.clone(), value_from_json(x)?))).collect::<Result<_, String>>()?),
    })
}

/// Calls `jsonc_parser::parse_to_serde_value` with the default options, which
/// accept comments and trailing commas. The contract names the result and adds
/// that the objects of a document that was read have distinct keys, as they
/// come out of a map.
#[verifier::external_body]
pub(crate) fn parse_relaxed(text: &str) -> (r: Result<Option<Json>, String>)
    ensures
        relaxed_view(r) == relaxed_document(text@),
        r matches Ok(Some(j)) ==> well_formed(j@),
{
    let options = jsonc_parser::ParseOptions::default();
    match jsonc_parser::parse_to_serde_value::<Option<Value>>(text, &options) {
        Ok(Some(v)) => Ok(Some(json_from_value(&v))),
        Ok(None) => Ok(None),
        Err(e) => Err(e.to_string()),
    }
}

/// Calls `serde_json::from_str`, which accepts strict JSON only. The contract
/// names the result and adds that the objects of a document that was read have
/// distinct keys, as they come out of a map.
#[verifier::external_body]
pub(crate) fn parse_strict(text: &str) -> (r: Result<Json, String>)
    ensures
        strict_view(r) == strict_document(text@),
        r matches Ok(j) ==> well_formed(j@),
{
    match serde_json::from_str::<Value>(text) {
        Ok(v) => Ok(json_from_value(&v)),
        Err(e) => Err(e.to_string()),
    }
}

/// Calls `serde_json::to_string_pretty`. The contract names the result: the
/// text, or the message of the error.
#[verifier::external_body]
pub(crate) fn write_pretty(document: &Json) -> (r: Result<String, String>)
    ensures
        text_view(r) == pretty_text(document@),
{
    match serde_json::to_string_pretty(&value_from_json(document)?) {
        Ok(text) => Ok(text),
        Err(e) => Err(e.to_string()),
    }
}

} // verus!
