//! JSON documents, as `serde_json` holds them.
//!
//! A `serde_json::Value` is opaque to the verifier. Its content is spoken of
//! through [`json_of`], a mathematical model of the document, and read
//! through the accessors below, each of which is one call into `serde_json`.
//! What the accessors promise is taken on trust from that crate; everything
//! that is built on them is proved.

use vstd::prelude::*;

verus! {

/// Mathematical model of a JSON document.
pub enum JsonModel {
    Null,
    Bool(bool),
    /// A number; it carries the value where that is an integer between
    /// zero and `u64::MAX`.
    Number(Option<u64>),
    Text(Seq<char>),
    Array(Seq<JsonModel>),
    Object(Map<Seq<char>, JsonModel>),
}

#[verifier::external_type_specification]
#[verifier::external_body]
pub struct ExValue(serde_json::Value);

/// The document that a `serde_json::Value` holds.
pub uninterp spec fn json_of(v: serde_json::Value) -> JsonModel;

/// The document that `serde_json` reads from a text, if the text is JSON.
pub uninterp spec fn parsed_json(text: Seq<char>) -> Option<JsonModel>;

/// The member `key` of an object; `None` for a missing key and for
/// anything that is no object.
pub open spec fn field(j: JsonModel, key: Seq<char>) -> Option<JsonModel> {
    match j {
        JsonModel::Object(m) => if m.contains_key(key) {
            Some(m[key])
        } else {
            None
        },
        _ => None,
    }
}

/// The characters of a JSON string; `None` for anything else.
pub open spec fn text_of(j: JsonModel) -> Option<Seq<char>> {
    match j {
        JsonModel::Text(s) => Some(s),
        _ => None,
    }
}

/// The elements of a JSON array; `None` for anything else.
pub open spec fn items_of(j: JsonModel) -> Option<Seq<JsonModel>> {
    match j {
        JsonModel::Array(a) => Some(a),
        _ => None,
    }
}

/// The value of a JSON number that is an integer between zero and
/// `u64::MAX`; `None` for anything else.
pub open spec fn unsigned_of(j: JsonModel) -> Option<u64> {
    match j {
        JsonModel::Number(n) => n,
        _ => None,
    }
}

/// The member `key` where it is a string.
pub open spec fn text_field(j: JsonModel, key: Seq<char>) -> Option<Seq<char>> {
    match field(j, key) {
        Some(v) => text_of(v),
        None => None,
    }
}

/// The member `key` where it is an array.
pub open spec fn items_field(j: JsonModel, key: Seq<char>) -> Option<Seq<JsonModel>> {
    match field(j, key) {
        Some(v) => items_of(v),
        None => None,
    }
}

/// The member `key` where it is an unsigned integer.
pub open spec fn unsigned_field(j: JsonModel, key: Seq<char>) -> Option<u64> {
    match field(j, key) {
        Some(v) => unsigned_of(v),
        None => None,
    }
}

/// The documents that a slice of values holds, element by element.
pub open spec fn models_of(values: Seq<serde_json::Value>) -> Seq<JsonModel> {
    Seq::new(values.len(), |i: int| json_of(values[i]))
}

/// `serde_json::from_str` for a `Value`: the document that the text
/// denotes, or `None` where the text is not JSON.
#[verifier::external_body]
pub(crate) fn parse(text: &str) -> (r: Option<serde_json::Value>)
    ensures
        match r {
            Some(v) => parsed_json(text@) == Some(json_of(v)),
            None => parsed_json(text@) is None,
        },
{
    serde_json::from_str::<serde_json::Value>(text).ok()
}

/// `serde_json::Value::get` with a string key: the member of that name of
/// an object, `None` for a missing key and for a value that is no object.
#[verifier::external_body]
pub(crate) fn member<'a>(v: &'a serde_json::Value, key: &str) -> (r: Option<&'a serde_json::Value>)
    ensures
        match r {
            Some(x) => field(json_of(*v), key@) == Some(json_of(*x)),
            None => field(json_of(*v), key@) is None,
        },
{
    v.get(key)
}

/// `serde_json::Value::as_str`: the string slice of a JSON string, `None`
/// for any other value.
#[verifier::external_body]
pub(crate) fn as_text<'a>(v: &'a serde_json::Value) -> (r: Option<&'a str>)
    ensures
        match r {
            Some(s) => text_of(json_of(*v)) == Some(s@),
            None => text_of(json_of(*v)) is None,
        },
{
    v.as_str()
}

/// `serde_json::Value::as_array`: the elements of a JSON array, `None` for
/// any other value.
#[verifier::external_body]
pub(crate) fn as_items<'a>(v: &'a serde_json::Value) -> (r: Option<&'a Vec<serde_json::Value>>)
    ensures
        match r {
            Some(items) => items_of(json_of(*v)) == Some(models_of(items@)),
            None => items_of(json_of(*v)) is None,
        },
{
    v.as_array()
}

/// `serde_json::Value::as_u64`: the value of a number that is an integer
/// between zero and `u64::MAX`, `None` for any other value.
#[verifier::external_body]
pub(crate) fn as_unsigned(v: &serde_json::Value) -> (r: Option<u64>)
    ensures
        r == unsigned_of(json_of(*v)),
{
    v.as_u64()
}

/// The member `key` of `v` where it is a string.
pub fn text_member<'a>(v: &'a serde_json::Value, key: &str) -> (r: Option<&'a str>)
    ensures
        match r {
            Some(s) => text_field(json_of(*v), key@) == Some(s@),
            None => text_field(json_of(*v), key@) is None,
        },
{
    match member(v, key) {
        Some(x) => as_text(x),
        None => None,
    }
}

/// The member `key` of `v` where it is an array.
pub fn items_member<'a>(v: &'a serde_json::Value, key: &str) -> (r: Option<
    &'a Vec<serde_json::Value>,
>)
    ensures
        match r {
            Some(items) => items_field(json_of(*v), key@) == Some(models_of(items@)),
            None => items_field(json_of(*v), key@) is None,
        },
{
    match member(v, key) {
        Some(x) => as_items(x),
        None => None,
    }
}

/// The member `key` of `v` where it is an unsigned integer.
pub fn unsigned_member(v: &serde_json::Value, key: &str) -> (r: Option<u64>)
    ensures
        r == unsigned_field(json_of(*v), key@),
{
    match member(v, key) {
        Some(x) => as_unsigned(x),
        None => None,
    }
}

} // verus!
