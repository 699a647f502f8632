//! JSON documents, read with `serde_json`.
//!
//! A document is modelled by [`Json`]. What stands here without proof is what `serde_json` makes of a
//! text and what its accessors hand out; reading a member of the wanted kind is proved from that.
use serde_json::Value;
use vstd::prelude::*;

verus! {

/// A JSON document as a mathematical value. A number is an `Integer` when it is held as a 64-bit
/// integer, signed or unsigned, and a `Fraction` otherwise.
pub enum Json {
    Null,
    Bool(bool),
    Integer(int),
    Fraction,
    Text(Seq<char>),
    Array(Seq<Json>),
    Object(Map<Seq<char>, Json>),
}

/// `serde_json::Value`: a parsed document.
#[verifier::external_type_specification]
#[verifier::external_body]
pub struct ExValue(serde_json::Value);

/// `serde_json::Error`: why a text is not a document.
#[verifier::external_type_specification]
#[verifier::external_body]
pub struct ExError(serde_json::Error);

/// What `serde_json::from_str` makes of a text: the document it spells, `None` when it spells none.
pub uninterp spec fn parsed_json(text: Seq<char>) -> Option<Json>;

/// The document that a `serde_json::Value` holds.
pub uninterp spec fn json_held(value: Value) -> Json;

/// `serde_json::from_str::<Value>`: succeeds exactly on the texts that spell a document, and hands out
/// that document.
#[verifier::external_body]
fn from_str(text: &str) -> (r: Result<Value, serde_json::Error>)
    ensures
        match r {
            Ok(value) => parsed_json(text@) == Some(json_held(value)),
            Err(_) => parsed_json(text@) is None,
        },
{
    serde_json::from_str(text)
}

/// `Value::get` with a string index: the member of that name, when the document is an object that has
/// one.
#[verifier::external_body]
fn member<'a>(value: &'a Value, name: &str) -> (r: Option<&'a Value>)
    ensures
        match r {
            Some(found) => json_member(json_held(*value), name@) == Some(json_held(*found)),
            None => json_member(json_held(*value), name@) is None,
        },
{
    value.get(name)
}

/// `Value::as_str`: the characters, when the document is a string.
pub assume_specification[ serde_json::Value::as_str ](value: &Value) -> (r: Option<&str>)
    ensures
        match r {
            Some(s) => json_held(*value) == Json::Text(s@),
            None => !(json_held(*value) is Text),
        },
;

/// `Value::as_i64`: the number, when the document is an integer in the range of `i64`.
pub assume_specification[ serde_json::Value::as_i64 ](value: &Value) -> (r: Option<i64>)
    ensures
        r == json_i64(json_held(*value)),
;

/// `Value::as_array`: the items, when the document is an array.
pub assume_specification[ serde_json::Value::as_array ](value: &Value) -> (r: Option<&Vec<Value>>)
    ensures
        match r {
            Some(items) => json_held(*value) == Json::Array(
                items@.map_values(|item: Value| json_held(item)),
            ),
            None => !(json_held(*value) is Array),
        },
;

/// The member `name` of a document: only an object has members.
pub open spec fn json_member(document: Json, name: Seq<char>) -> Option<Json> {
    match document {
        Json::Object(members) => if members.contains_key(name) {
            Some(members[name])
        } else {
            None
        },
        _ => None,
    }
}

/// The integer that a document is, when it fits an `i64`.
pub open spec fn json_i64(document: Json) -> Option<i64> {
    match document {
        Json::Integer(n) => if i64::MIN <= n <= i64::MAX {
            Some(n as i64)
        } else {
            None
        },
        _ => None,
    }
}

/// The string that a document is.
pub open spec fn json_text(document: Json) -> Option<Seq<char>> {
    match document {
        Json::Text(s) => Some(s),
        _ => None,
    }
}

/// The member `name` of a document, when it is a string.
pub open spec fn text_member(document: Json, name: Seq<char>) -> Option<Seq<char>> {
    match json_member(document, name) {
        Some(found) => json_text(found),
        None => None,
    }
}

/// The member `name` of a document, when it is an integer in the range of `i64`.
pub open spec fn integer_member(document: Json, name: Seq<char>) -> Option<i64> {
    match json_member(document, name) {
        Some(found) => json_i64(found),
        None => None,
    }
}

/// Parses a text.
pub fn parse(text: &str) -> (r: Option<Value>)
    ensures
        match r {
            Some(value) => parsed_json(text@) == Some(json_held(value)),
            None => parsed_json(text@) is None,
        },
{
    match from_str(text) {
        Ok(value) => Some(value),
        Err(_) => None,
    }
}

/// The string member `name` of a document.
pub fn get_text(value: &Value, name: &str) -> (r: Option<String>)
    ensures
        r.deep_view() == text_member(json_held(*value), name@),
{
    match member(value, name) {
        Some(found) => match found.as_str() {
            Some(s) => Some(s.to_string()),
            None => None,
        },
        None => None,
    }
}

/// The integer member `name` of a document.
pub fn get_integer(value: &Value, name: &str) -> (r: Option<i64>)
    ensures
        r == integer_member(json_held(*value), name@),
{
    match member(value, name) {
        Some(found) => found.as_i64(),
        None => None,
    }
}

/// A string member is found, in full, exactly where an object has a member of that name and it is that
/// string.
pub proof fn law_text_member(document: Json, name: Seq<char>, text: Seq<char>)
    ensures
        text_member(document, name) == Some(text) <==> (document matches Json::Object(members)
            && members.contains_key(name) && members[name] == Json::Text(text)),
        !(document is Object) ==> text_member(document, name) is None,
{
}

/// An integer member is found exactly where an object has a member of that name and it is that integer:
/// any that an `i64` can hold is found.
pub proof fn law_integer_member(document: Json, name: Seq<char>, n: i64)
    ensures
        integer_member(document, name) == Some(n) <==> (document matches Json::Object(members)
            && members.contains_key(name) && members[name] == Json::Integer(n as int)),
        !(document is Object) ==> integer_member(document, name) is None,
{
}

} // verus!
