//! JSON documents, made and rendered by `serde_json`.

use vstd::prelude::*;

verus! {

/// A JSON value of `serde_json`.
#[verifier::external_type_specification]
#[verifier::external_body]
pub struct ExValue(serde_json::Value);

/// A JSON value as contracts speak of it. A number is held by its notation.
pub enum Json {
    Null,
    Bool(bool),
    Number(Seq<char>),
    Text(Seq<char>),
    List(Seq<Json>),
    Record(Map<Seq<char>, Json>),
}

/// What a JSON value of `serde_json` holds.
pub uninterp spec fn json_of(v: serde_json::Value) -> Json;

/// The compact text that `serde_json` renders a value as. Records list their
/// keys in alphabetical order, so the text depends on what is held alone.
pub uninterp spec fn rendered(json: Json) -> Seq<char>;

/// What each value of a list holds.
pub open spec fn json_list(values: Seq<serde_json::Value>) -> Seq<Json> {
    values.map_values(|v: serde_json::Value| json_of(v))
}

/// An optional text: the text, or null.
pub open spec fn text_or_null(s: Option<Seq<char>>) -> Json {
    match s {
        Some(t) => Json::Text(t),
        None => Json::Null,
    }
}

/// The truth value that a record holds under a key.
pub open spec fn bool_under(json: Json, key: Seq<char>) -> Option<bool> {
    match json {
        Json::Record(m) => if m.dom().contains(key) {
            match m[key] {
                Json::Bool(b) => Some(b),
                _ => None,
            }
        } else {
            None
        },
        _ => None,
    }
}

/// `serde_json::Value::Null`.
#[verifier::external_body]
pub(crate) fn null() -> (r: serde_json::Value)
    ensures
        json_of(r) == Json::Null,
{
    serde_json::Value::Null
}

/// `serde_json::Value::Bool` holds the truth value.
#[verifier::external_body]
pub(crate) fn boolean(b: bool) -> (r: serde_json::Value)
    ensures
        json_of(r) == Json::Bool(b),
{
    serde_json::Value::Bool(b)
}

/// `serde_json::Value::from` on a `u64` holds the number, whose notation is
/// decimal.
#[verifier::external_body]
pub(crate) fn number(n: u64) -> (r: serde_json::Value)
    ensures
        json_of(r) == Json::Number(crate::text::decimal(n as nat)),
{
    serde_json::Value::from(n)
}

/// `serde_json::Value::String` holds the text.
#[verifier::external_body]
pub(crate) fn text(s: &str) -> (r: serde_json::Value)
    ensures
        json_of(r) == Json::Text(s@),
{
    serde_json::Value::String(s.to_string())
}

/// `serde_json::Value::Array` holds the values in order.
#[verifier::external_body]
pub(crate) fn list(values: Vec<serde_json::Value>) -> (r: serde_json::Value)
    ensures
        json_of(r) == Json::List(json_list(values@)),
{
    serde_json::Value::Array(values)
}

/// `serde_json::Value::Object` on a new `serde_json::Map`: a record without
/// keys.
#[verifier::external_body]
pub(crate) fn record() -> (r: serde_json::Value)
    ensures
        json_of(r) == Json::Record(Map::empty()),
{
    serde_json::Value::Object(serde_json::Map::new())
}

/// `serde_json::Map::insert` on the record's map puts the value under the key,
/// in place of what was there.
#[verifier::external_body]
pub(crate) fn put(record: &mut serde_json::Value, key: &str, value: serde_json::Value)
    requires
        json_of(*old(record)) is Record,
    ensures
        json_of(*final(record)) == Json::Record(
            json_of(*old(record))->Record_0.insert(key@, json_of(value)),
        ),
{
    if let Some(map) = record.as_object_mut() {
        map.insert(key.to_string(), value);
    }
}

/// `serde_json::Value::get`, then `serde_json::Value::as_bool` on what it finds:
/// the truth value that a record holds under the key.
#[verifier::external_body]
pub(crate) fn bool_at(value: &serde_json::Value, key: &str) -> (r: Option<bool>)
    ensures
        r == bool_under(json_of(*value), key@),
{
    value.get(key).and_then(serde_json::Value::as_bool)
}

/// `serde_json::Value`'s display: the compact text.
#[verifier::external_body]
pub(crate) fn render(value: &serde_json::Value) -> (r: String)
    ensures
        r@ == rendered(json_of(*value)),
{
    value.to_string()
}

/// The text, or null.
pub(crate) fn optional_text(s: &Option<String>) -> (r: serde_json::Value)
    ensures
        json_of(r) == text_or_null(crate::text::opt_text(*s)),
{
    match s {
        Some(t) => text(t.as_str()),
        None => null(),
    }
}

} // verus!
