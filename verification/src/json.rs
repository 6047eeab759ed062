//! JSON values, as `serde_json` holds them.
//!
//! A [`JsonView`] is what a `serde_json::Value` stands for. The functions here
//! are the calls that the rest of the library makes into `serde_json`.

use vstd::prelude::*;
use serde_json::Value;
use crate::assoc::{assoc, distinct_keys};
use crate::text::decimal;

verus! {

/// `serde_json::Value`: a tree of keyed and ordered values.
#[verifier::external_type_specification]
#[verifier::external_body]
pub struct ExValue(serde_json::Value);

/// What a JSON value stands for. A number is the text it prints as.
#[verifier::ext_equal]
pub enum JsonView {
    Null,
    Bool(bool),
    Number(Seq<char>),
    Text(Seq<char>),
    Array(Seq<JsonView>),
    Object(Map<Seq<char>, JsonView>),
}

/// What a `serde_json::Value` holds.
pub uninterp spec fn json_of(v: Value) -> JsonView;

/// What each of these values holds, in order.
pub open spec fn jsons(s: Seq<Value>) -> Seq<JsonView> {
    s.map_values(|v: Value| json_of(v))
}

impl JsonView {
    /// The value under a key, when this is an object that has it.
    pub open spec fn field(self, key: Seq<char>) -> Option<JsonView> {
        match self {
            JsonView::Object(m) => if m.contains_key(key) {
                Some(m[key])
            } else {
                None
            },
            _ => None,
        }
    }

    /// The text, when this is a string.
    pub open spec fn as_text(self) -> Option<Seq<char>> {
        match self {
            JsonView::Text(s) => Some(s),
            _ => None,
        }
    }

    /// The truth value, when this is one.
    pub open spec fn as_bool(self) -> Option<bool> {
        match self {
            JsonView::Bool(b) => Some(b),
            _ => None,
        }
    }

    /// The elements, when this is an array.
    pub open spec fn as_items(self) -> Option<Seq<JsonView>> {
        match self {
            JsonView::Array(s) => Some(s),
            _ => None,
        }
    }

    /// The text under a key, when this is an object that has a string there.
    pub open spec fn text_field(self, key: Seq<char>) -> Option<Seq<char>> {
        match self.field(key) {
            Some(v) => v.as_text(),
            None => None,
        }
    }

    /// Whether this is an object that has `true` under a key.
    pub open spec fn affirms(self, key: Seq<char>) -> bool {
        match self.field(key) {
            Some(v) => v.as_bool() == Some(true),
            None => false,
        }
    }

    /// The elements under a key, when this is an object that has an array
    /// there.
    pub open spec fn items_field(self, key: Seq<char>) -> Option<Seq<JsonView>> {
        match self.field(key) {
            Some(v) => v.as_items(),
            None => None,
        }
    }
}

/// The pairs that a list of keys and values stands for.
pub open spec fn pairs_of(s: Seq<(String, Value)>) -> Seq<(Seq<char>, JsonView)> {
    s.map_values(|p: (String, Value)| (p.0@, json_of(p.1)))
}

/// `Value::get` with a string index: the value under the key, when this is an
/// object that has it.
#[verifier::external_body]
pub(crate) fn value_get<'a>(v: &'a Value, key: &str) -> (r: Option<&'a Value>)
    ensures
        match r {
            Some(x) => json_of(*v).field(key@) == Some(json_of(*x)),
            None => json_of(*v).field(key@) is None,
        },
{
    v.get(key)
}

/// `Value::as_str`: the text, when this is a string.
#[verifier::external_body]
pub(crate) fn value_str<'a>(v: &'a Value) -> (r: Option<&'a str>)
    ensures
        match r {
            Some(s) => json_of(*v).as_text() == Some(s@),
            None => json_of(*v).as_text() is None,
        },
{
    v.as_str()
}

/// `Value::as_bool`: the truth value, when this is one.
#[verifier::external_body]
pub(crate) fn value_bool(v: &Value) -> (r: Option<bool>)
    ensures
        r == json_of(*v).as_bool(),
{
    v.as_bool()
}

/// `Value::as_array`: the elements, when this is an array.
#[verifier::external_body]
pub(crate) fn value_items<'a>(v: &'a Value) -> (r: Option<&'a Vec<Value>>)
    ensures
        match r {
            Some(s) => json_of(*v).as_items() == Some(jsons(s@)),
            None => json_of(*v).as_items() is None,
        },
{
    v.as_array()
}

/// `<Value as Clone>::clone`: a value that holds the same.
#[verifier::external_body]
pub(crate) fn value_clone(v: &Value) -> (r: Value)
    ensures
        json_of(r) == json_of(*v),
{
    v.clone()
}

/// The compact text of a JSON value.
pub uninterp spec fn json_text(v: JsonView) -> Seq<char>;

/// `<Value as Display>::fmt`, without the alternate flag: the compact text,
/// object keys in order.
#[verifier::external_body]
pub(crate) fn value_text(v: &Value) -> (r: String)
    ensures
        r@ == json_text(json_of(*v)),
{
    v.to_string()
}

/// What a text parses to as JSON, or what is wrong with it.
pub uninterp spec fn json_parsed(text: Seq<char>) -> Result<JsonView, Seq<char>>;

/// `serde_json::from_str` into a `Value`: the value, or the error's message.
#[verifier::external_body]
pub(crate) fn parse_value(text: &str) -> (r: Result<Value, String>)
    ensures
        match r {
            Ok(v) => json_parsed(text@) == Ok::<JsonView, Seq<char>>(json_of(v)),
            Err(e) => json_parsed(text@) == Err::<JsonView, Seq<char>>(e@),
        },
{
    serde_json::from_str::<Value>(text).map_err(|e| e.to_string())
}

/// What bytes parse to as JSON, or what is wrong with them.
pub uninterp spec fn json_parsed_bytes(bytes: Seq<u8>) -> Result<JsonView, Seq<char>>;

/// `serde_json::from_slice` into a `Value`: the value, or the error's message.
#[verifier::external_body]
pub(crate) fn parse_value_bytes(bytes: &Vec<u8>) -> (r: Result<Value, String>)
    ensures
        match r {
            Ok(v) => json_parsed_bytes(bytes@) == Ok::<JsonView, Seq<char>>(json_of(v)),
            Err(e) => json_parsed_bytes(bytes@) == Err::<JsonView, Seq<char>>(e@),
        },
{
    serde_json::from_slice::<Value>(bytes).map_err(|e| e.to_string())
}

/// `Value::String`.
#[verifier::external_body]
pub(crate) fn text_value(s: &str) -> (r: Value)
    ensures
        json_of(r) == JsonView::Text(s@),
{
    Value::String(s.to_string())
}

/// `<Value as From<u64>>::from`: a number that prints in decimal.
#[verifier::external_body]
pub(crate) fn number_value(n: u64) -> (r: Value)
    ensures
        json_of(r) == JsonView::Number(decimal(n as nat)),
{
    Value::from(n)
}

/// `Value::Array`.
#[verifier::external_body]
pub(crate) fn array_value(items: Vec<Value>) -> (r: Value)
    ensures
        json_of(r) == JsonView::Array(jsons(items@)),
{
    Value::Array(items)
}

/// `<serde_json::Map as FromIterator>::from_iter`, as `Value::Object`: an
/// object with these pairs. Nothing is said of pairs that share a key.
#[verifier::external_body]
pub(crate) fn object_value(pairs: Vec<(String, Value)>) -> (r: Value)
    requires
        distinct_keys(pairs_of(pairs@)),
    ensures
        json_of(r) == JsonView::Object(assoc(pairs_of(pairs@))),
{
    Value::Object(serde_json::Map::from_iter(pairs))
}

} // verus!
