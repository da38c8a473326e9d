//! JSON documents: the model that contracts speak of, and the calls into
//! `serde_json` that build and write a document.

use vstd::prelude::*;
use serde_json::Value;

verus! {

/// A JSON value. A floating point number is given by its IEEE 754 bits, an
/// object by the value of each of its keys.
pub enum Json {
    Null,
    Bool(bool),
    Int(int),
    Float(u64),
    Text(Seq<char>),
    Array(Seq<Json>),
    Object(Map<Seq<char>, Json>),
}

/// The members of an object, given one after the other: where a key comes
/// twice, the later value stands.
pub open spec fn collected(members: Seq<(Seq<char>, Json)>) -> Map<Seq<char>, Json>
    decreases members.len(),
{
    if members.len() == 0 {
        Map::empty()
    } else {
        collected(members.drop_last()).insert(members.last().0, members.last().1)
    }
}

/// The object with the given members.
pub open spec fn object(members: Seq<(Seq<char>, Json)>) -> Json {
    Json::Object(collected(members))
}

/// `serde_json::Value`, a JSON document in memory.
#[verifier::external_type_specification]
#[verifier::external_body]
pub struct ExValue(serde_json::Value);

/// `serde_json::Error`, what writing a document reports when it fails.
#[verifier::external_type_specification]
#[verifier::external_body]
pub struct ExError(serde_json::Error);

/// What a `serde_json::Value` holds.
pub uninterp spec fn json_of(value: Value) -> Json;

/// The compact text that `serde_json` writes for a document, in UTF-8.
pub uninterp spec fn json_bytes(json: Json) -> Seq<u8>;

/// The compact text that `serde_json` displays for a document.
pub uninterp spec fn json_text(json: Json) -> Seq<char>;

/// What each of several documents holds.
pub open spec fn jsons_of(values: Seq<Value>) -> Seq<Json> {
    values.map_values(|v: Value| json_of(v))
}

/// What each of several members of an object holds.
pub open spec fn members_of(members: Seq<(&str, Value)>) -> Seq<(Seq<char>, Json)> {
    members.map_values(|m: (&str, Value)| (m.0@, json_of(m.1)))
}

/// `serde_json::Value::from(&str)`: a JSON string with the same characters.
#[verifier::external_body]
pub(crate) fn text_value(text: &str) -> (r: Value)
    ensures
        json_of(r) == Json::Text(text@),
{
    Value::from(text)
}

/// `serde_json::Value::from(i64)`: a JSON number, the same integer.
#[verifier::external_body]
pub(crate) fn int_value(n: i64) -> (r: Value)
    ensures
        json_of(r) == Json::Int(n as int),
{
    Value::from(n)
}

/// `serde_json::Value::from(bool)`: the same truth value.
#[verifier::external_body]
pub(crate) fn bool_value(b: bool) -> (r: Value)
    ensures
        json_of(r) == Json::Bool(b),
{
    Value::from(b)
}

/// `serde_json::Value::from(Vec<Value>)`: a JSON array of the same documents
/// in the same order.
#[verifier::external_body]
pub(crate) fn array_value(items: Vec<Value>) -> (r: Value)
    ensures
        json_of(r) == Json::Array(jsons_of(items@)),
{
    Value::from(items)
}

/// `serde_json::Value::from_iter` on pairs: a JSON object in which each key has
/// the value of its last pair.
#[verifier::external_body]
pub(crate) fn object_value(members: Vec<(&str, Value)>) -> (r: Value)
    ensures
        json_of(r) == object(members_of(members@)),
{
    Value::from_iter(members)
}

/// `serde_json::to_vec` on a document: succeeds, since a document has only
/// string keys and its writing reports no error of its own, and gives the
/// compact text in UTF-8, which depends on what the document holds alone
/// (objects are written in the order of their keys).
#[verifier::external_body]
pub(crate) fn write_bytes(value: &Value) -> (r: Result<Vec<u8>, serde_json::Error>)
    ensures
        r is Ok,
        r->Ok_0@ == json_bytes(json_of(*value)),
{
    serde_json::to_vec(value)
}

/// `to_string` of a `serde_json::Value`: the compact text, which depends on
/// what the document holds alone; a truth value is written `true` or `false`.
#[verifier::external_body]
pub(crate) fn write_text(value: &Value) -> (r: String)
    ensures
        r@ == json_text(json_of(*value)),
        json_of(*value) matches Json::Bool(b) ==> r@ == (if b { "true"@ } else { "false"@ }),
{
    value.to_string()
}

} // verus!
