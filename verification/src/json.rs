//! The boundary to `serde_json`: a model of a parsed document and the few
//! calls the library makes on one. Nothing in this file is proved: parsing
//! has its result named, and each reading of a value restates what
//! `serde_json` documents of it.

use vstd::prelude::*;

verus! {

/// The shape of a JSON document. Numbers carry no payload: nothing in
/// this library reads one.
pub enum Json {
    Null,
    Bool(bool),
    Number,
    Text(Seq<char>),
    Array(Seq<Json>),
    Object(Map<Seq<char>, Json>),
}

impl Json {
    /// The member `name` of an object; `Null` where there is no such member
    /// or the document is no object.
    pub open spec fn member(self, name: Seq<char>) -> Json {
        match self {
            Json::Object(fields) => if fields.contains_key(name) {
                fields[name]
            } else {
                Json::Null
            },
            _ => Json::Null,
        }
    }

    /// The string that a JSON string holds.
    pub open spec fn as_text(self) -> Option<Seq<char>> {
        match self {
            Json::Text(s) => Some(s),
            _ => None,
        }
    }

    /// The truth value that a JSON boolean holds.
    pub open spec fn as_flag(self) -> Option<bool> {
        match self {
            Json::Bool(b) => Some(b),
            _ => None,
        }
    }

    /// The elements that a JSON array holds.
    pub open spec fn as_items(self) -> Option<Seq<Json>> {
        match self {
            Json::Array(items) => Some(items),
            _ => None,
        }
    }
}

/// `serde_json::Value`, made known as a type. Nothing is known of a value
/// but what the functions below say of it.
#[verifier::external_type_specification]
#[verifier::external_body]
pub struct ExValue(serde_json::Value);

/// `serde_json::Error`, made known as a type. Nothing is known of a value.
#[verifier::external_type_specification]
#[verifier::external_body]
pub struct ExJsonError(serde_json::Error);

/// The document that a `serde_json::Value` holds.
pub uninterp spec fn json_shape(value: serde_json::Value) -> Json;

/// What `serde_json::from_str` makes of a text: the document, or `None`
/// where it reports an error.
pub uninterp spec fn json_of_text(text: Seq<char>) -> Option<Json>;

/// What `serde_json::from_slice` makes of bytes: the document, or `None`
/// where it reports an error.
pub uninterp spec fn json_of_bytes(bytes: Seq<u8>) -> Option<Json>;

/// The shapes of a run of values.
pub open spec fn json_shapes(values: Seq<serde_json::Value>) -> Seq<Json> {
    values.map_values(|v: serde_json::Value| json_shape(v))
}

/// `serde_json::from_str` at type `Value`. Trusted: it succeeds exactly
/// where `json_of_text` names a document, and the value holds that document.
#[verifier::external_body]
pub(crate) fn parse_text(text: &str) -> (parsed: Result<serde_json::Value, serde_json::Error>)
    ensures
        parsed is Ok <==> json_of_text(text@) is Some,
        parsed is Ok ==> json_of_text(text@) == Some(json_shape(parsed->Ok_0)),
{
    serde_json::from_str::<serde_json::Value>(text)
}

/// `serde_json::from_slice` at type `Value`. Trusted: it succeeds exactly
/// where `json_of_bytes` names a document, and the value holds that document.
#[verifier::external_body]
pub(crate) fn parse_bytes(bytes: &[u8]) -> (parsed: Result<serde_json::Value, serde_json::Error>)
    ensures
        parsed is Ok <==> json_of_bytes(bytes@) is Some,
        parsed is Ok ==> json_of_bytes(bytes@) == Some(json_shape(parsed->Ok_0)),
{
    serde_json::from_slice::<serde_json::Value>(bytes)
}

/// Indexing a `Value` by a string. Trusted: it yields the member of that
/// name, and `Null` where the value is no object or has no such member.
#[verifier::external_body]
pub(crate) fn member<'a>(value: &'a serde_json::Value, name: &str) -> (found: &'a serde_json::Value)
    ensures
        json_shape(*found) == json_shape(*value).member(name@),
{
    &value[name]
}

/// `Value::as_str`. Trusted: the string of a JSON string, `None` otherwise.
#[verifier::external_body]
pub(crate) fn as_text<'a>(value: &'a serde_json::Value) -> (text: Option<&'a str>)
    ensures
        text is Some <==> json_shape(*value).as_text() is Some,
        text is Some ==> json_shape(*value).as_text() == Some(text->0@),
{
    value.as_str()
}

/// `Value::as_bool`. Trusted: the value of a JSON boolean, `None` otherwise.
#[verifier::external_body]
pub(crate) fn as_flag(value: &serde_json::Value) -> (flag: Option<bool>)
    ensures
        flag == json_shape(*value).as_flag(),
{
    value.as_bool()
}

/// `Value::as_array`. Trusted: the elements of a JSON array in their
/// order, `None` otherwise.
#[verifier::external_body]
pub(crate) fn as_items<'a>(value: &'a serde_json::Value) -> (items: Option<&'a Vec<serde_json::Value>>)
    ensures
        items is Some <==> json_shape(*value).as_items() is Some,
        items is Some ==> json_shape(*value).as_items() == Some(json_shapes(items->0@)),
{
    value.as_array()
}

} // verus!
