//! JSON values, as `serde_json` holds them.
//!
//! [`Json`] is the mathematical reading of a `serde_json::Value`. The functions here are the only
//! ones of the crate that look into such a value or make one.

use serde_json::Value;
use vstd::prelude::*;

verus! {

/// A JSON value as a tree. An object has no order; a number that is not an integer is known by the
/// bits of the double that holds it.
pub enum Json {
    Null,
    Bool(bool),
    Int(int),
    Double(nat),
    Text(Seq<char>),
    Array(Seq<Json>),
    Object(Map<Seq<char>, Json>),
}

/// A value of `serde_json`.
#[verifier::external_type_specification]
#[verifier::external_body]
pub struct ExValue(serde_json::Value);

/// The reason for which `serde_json` gave up.
#[verifier::external_type_specification]
#[verifier::external_body]
pub struct ExError(serde_json::Error);

/// What a `serde_json::Value` holds.
pub uninterp spec fn json_of(v: Value) -> Json;

/// What `serde_json::from_str` reads out of a text: a value, or nothing where it refuses the text.
pub uninterp spec fn parsed_json(text: Seq<char>) -> Option<Json>;

/// What `serde_json::to_string` writes for a value.
pub uninterp spec fn printed_json(j: Json) -> Seq<char>;

/// The member of an object that has a name. A value that is no object has no members.
pub open spec fn field(j: Json, key: Seq<char>) -> Option<Json> {
    match j {
        Json::Object(members) if members.contains_key(key) => Some(members[key]),
        _ => None,
    }
}

/// The text of a member, or another text where the member is missing or is no text.
pub open spec fn text_field(j: Json, key: Seq<char>, otherwise: Seq<char>) -> Seq<char> {
    match field(j, key) {
        Some(Json::Text(t)) => t,
        _ => otherwise,
    }
}

/// The object without members.
pub open spec fn no_members() -> Json {
    Json::Object(Map::empty())
}

/// The mathematical reading of some values.
pub open spec fn json_views(v: Seq<Value>) -> Seq<Json> {
    Seq::new(v.len(), |i: int| json_of(v[i]))
}

/// Calls `serde_json::from_str` for a `Value`. Whether it succeeds and which value comes out
/// depends on the text alone.
#[verifier::external_body]
pub(crate) fn parse_value(text: &str) -> (r: Result<Value, serde_json::Error>)
    ensures
        match r {
            Ok(v) => parsed_json(text@) == Some(json_of(v)),
            Err(_) => parsed_json(text@) is None,
        },
{
    serde_json::from_str(text)
}

/// Calls `serde_json::to_string` on a `Value`. That never fails: a value has no keys but texts.
/// What is written depends on what the value holds alone, and is one line: line feeds inside texts
/// are escaped, and none is put between the parts.
#[verifier::external_body]
pub(crate) fn print_value(v: &Value) -> (r: Result<String, serde_json::Error>)
    ensures
        r is Ok,
        r->Ok_0@ == printed_json(json_of(*v)),
        !r->Ok_0@.contains('\n'),
{
    serde_json::to_string(v)
}

/// Calls `Value::get` with a text: the member of that name where the value is an object that has
/// one, nothing otherwise.
#[verifier::external_body]
pub(crate) fn get_field<'a>(v: &'a Value, key: &str) -> (r: Option<&'a Value>)
    ensures
        match r {
            Some(m) => field(json_of(*v), key@) == Some(json_of(*m)),
            None => field(json_of(*v), key@) is None,
        },
{
    v.get(key)
}

/// Calls `Value::as_str`: the text where the value is one, nothing otherwise.
#[verifier::external_body]
pub(crate) fn as_text(v: &Value) -> (r: Option<&str>)
    ensures
        match r {
            Some(t) => json_of(*v) == Json::Text(t@),
            None => !(json_of(*v) is Text),
        },
{
    v.as_str()
}

/// Calls `Value::clone`: a value that holds the same.
#[verifier::external_body]
pub(crate) fn copy_value(v: &Value) -> (r: Value)
    ensures
        json_of(r) == json_of(*v),
{
    v.clone()
}

/// Makes `Value::Null`.
#[verifier::external_body]
pub(crate) fn null_value() -> (r: Value)
    ensures
        json_of(r) == Json::Null,
{
    Value::Null
}

/// Calls `Value::from` for a truth value.
#[verifier::external_body]
pub(crate) fn bool_value(b: bool) -> (r: Value)
    ensures
        json_of(r) == Json::Bool(b),
{
    Value::from(b)
}

/// Calls `Value::from` for an integer.
#[verifier::external_body]
pub(crate) fn int_value(n: i64) -> (r: Value)
    ensures
        json_of(r) == Json::Int(n as int),
{
    Value::from(n)
}

/// Calls `Value::from` for a text.
#[verifier::external_body]
pub(crate) fn text_value(text: &str) -> (r: Value)
    ensures
        json_of(r) == Json::Text(text@),
{
    Value::from(text)
}

/// Makes `Value::Array` of some values, in their order.
#[verifier::external_body]
pub(crate) fn array_value(items: Vec<Value>) -> (r: Value)
    ensures
        json_of(r) == Json::Array(json_views(items@)),
{
    Value::Array(items)
}

/// Makes `Value::Object` of `serde_json::Map::new`, which has no members.
#[verifier::external_body]
pub(crate) fn empty_object() -> (r: Value)
    ensures
        json_of(r) == no_members(),
{
    Value::Object(serde_json::Map::new())
}

/// Assigns to a member of an object by index, which adds the member or replaces the one of that
/// name. On a value that is neither an object nor null it would panic.
#[verifier::external_body]
pub(crate) fn with_member(object: Value, key: &str, value: Value) -> (r: Value)
    requires
        json_of(object) is Object,
    ensures
        json_of(r) == Json::Object(json_of(object)->Object_0.insert(key@, json_of(value))),
{
    let mut object = object;
    object[key] = value;
    object
}

/// The text of a member, or another text where the member is missing or is no text.
pub(crate) fn get_text(v: &Value, key: &str, otherwise: &str) -> (r: String)
    ensures
        r@ == text_field(json_of(*v), key@, otherwise@),
{
    match get_field(v, key) {
        Some(m) => match as_text(m) {
            Some(t) => t.to_owned(),
            None => otherwise.to_owned(),
        },
        None => otherwise.to_owned(),
    }
}

} // verus!
