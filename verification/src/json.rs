//! JSON values, as far as rendering a prompt and reading a reply need them.
//!
//! The values themselves are `serde_json`'s. This module gives them a
//! mathematical model and states, without proof, what the handful of
//! `serde_json` functions that the library calls do to that model.

use serde_json::Value;
use vstd::prelude::*;

verus! {

/// `serde_json::Value`, carried through verified code as an opaque value.
#[verifier::external_type_specification]
#[verifier::external_body]
pub struct ExValue(serde_json::Value);

/// The shape of a JSON value. Numbers are told apart from the other kinds but
/// their digits are not modelled; an object is its keys with their values.
pub enum Json {
    Null,
    Bool(bool),
    Number,
    Str(Seq<char>),
    Array(Seq<Json>),
    Object(Map<Seq<char>, Json>),
}

impl Json {
    /// The value under `key`, if this is an object that has the key.
    pub open spec fn field(self, key: Seq<char>) -> Option<Json> {
        match self {
            Json::Object(fields) => if fields.contains_key(key) {
                Some(fields[key])
            } else {
                None
            },
            _ => None,
        }
    }

    /// The element at `index`, if this is an array that is long enough.
    pub open spec fn item(self, index: int) -> Option<Json> {
        match self {
            Json::Array(items) => if 0 <= index < items.len() {
                Some(items[index])
            } else {
                None
            },
            _ => None,
        }
    }

    /// The characters of this value, if it is a string.
    pub open spec fn text(self) -> Option<Seq<char>> {
        match self {
            Json::Str(text) => Some(text),
            _ => None,
        }
    }
}

/// What a `serde_json::Value` holds.
pub uninterp spec fn json_model(value: serde_json::Value) -> Json;

/// The models of a list of values, in order.
pub open spec fn items_model(items: Seq<Value>) -> Seq<Json> {
    Seq::new(items.len(), |i: int| json_model(items[i]))
}

/// No key occurs twice in a list of fields.
pub open spec fn distinct_keys(fields: Seq<(String, Value)>) -> bool {
    forall|i: int, j: int| 0 <= i < j < fields.len() ==> fields[i].0@ != fields[j].0@
}

/// The object that a list of fields describes: each key with its value.
pub open spec fn fields_model(fields: Seq<(String, Value)>) -> Map<Seq<char>, Json>
    decreases fields.len(),
{
    if fields.len() == 0 {
        Map::empty()
    } else {
        fields_model(fields.drop_last()).insert(fields.last().0@, json_model(fields.last().1))
    }
}

/// `Value::from(&str)`: a JSON string with the characters of `text`.
#[verifier::external_body]
pub(crate) fn json_string(text: &str) -> (value: Value)
    ensures
        json_model(value) == Json::Str(text@),
{
    Value::from(text)
}

/// `Value::from(Vec<Value>)`: a JSON array of the given values, in their order.
#[verifier::external_body]
pub(crate) fn json_array(items: Vec<Value>) -> (value: Value)
    ensures
        json_model(value) == Json::Array(items_model(items@)),
{
    Value::from(items)
}

/// `Map::from_iter`, wrapped as `Value::Object`: a JSON object that holds each
/// of the given fields. The keys have to differ, since the collection keeps
/// one value per key and does not promise which.
#[verifier::external_body]
pub(crate) fn json_object(fields: Vec<(String, Value)>) -> (value: Value)
    requires
        distinct_keys(fields@),
    ensures
        json_model(value) == Json::Object(fields_model(fields@)),
{
    Value::Object(serde_json::Map::from_iter(fields))
}

/// `Value::get` with a string index: the value under `key` where `value` is
/// an object that has the key, and nothing otherwise.
#[verifier::external_body]
pub(crate) fn json_get_field<'a>(value: &'a Value, key: &str) -> (found: Option<&'a Value>)
    ensures
        match found {
            Some(inner) => json_model(*value).field(key@) == Some(json_model(*inner)),
            None => json_model(*value).field(key@).is_none(),
        },
{
    value.get(key)
}

/// `Value::get` with a number index: the element at `index` where `value` is
/// an array with more than `index` elements, and nothing otherwise.
#[verifier::external_body]
pub(crate) fn json_get_item<'a>(value: &'a Value, index: usize) -> (found: Option<&'a Value>)
    ensures
        match found {
            Some(inner) => json_model(*value).item(index as int) == Some(json_model(*inner)),
            None => json_model(*value).item(index as int).is_none(),
        },
{
    value.get(index)
}

/// `Value::as_str`: the text where `value` is a JSON string, and nothing
/// otherwise.
#[verifier::external_body]
pub(crate) fn json_as_str<'a>(value: &'a Value) -> (found: Option<&'a str>)
    ensures
        match found {
            Some(text) => json_model(*value).text() == Some(text@),
            None => json_model(*value).text().is_none(),
        },
{
    value.as_str()
}

} // verus!
