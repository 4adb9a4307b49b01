//! JSON documents, read with serde_json and held as the library's own tree of
//! plain values, with the accessors the readers use.
use vstd::prelude::*;
use crate::text::{opt_text, same_text};

verus! {

/// serde_json::Value, a parsed JSON document; it is converted to [`JsonValue`] at once.
#[verifier::external_type_specification]
#[verifier::external_body]
pub struct ExJsonValue(serde_json::Value);

/// serde_json::Error, why a text is not a JSON document; only its message is read.
#[verifier::external_type_specification]
#[verifier::external_body]
pub struct ExJsonError(serde_json::Error);

/// A JSON value as plain values.
#[derive(Debug)]
pub enum JsonValue {
    Null,
    Bool(bool),
    /// A number: its value when it is an integer that fits an `i64`.
    Number(Option<i64>),
    Str(String),
    Array(Vec<JsonValue>),
    /// An object's members, each key once.
    Object(Vec<(String, JsonValue)>),
}

/// The text is one JSON document, as serde_json reads it.
pub uninterp spec fn is_json_document(s: Seq<char>) -> bool;

/// The JSON document that serde_json reads from the text.
pub uninterp spec fn json_of(s: Seq<char>) -> JsonValue;

/// Relies on serde_json::Value's variants: each becomes the [`JsonValue`]
/// variant of the same kind, fields moved one for one; a number keeps what
/// `Number::as_i64` gives.
#[verifier::external_body]
fn tree_of_value(v: &serde_json::Value) -> JsonValue {
    match v {
        serde_json::Value::Null => JsonValue::Null,
        serde_json::Value::Bool(b) => JsonValue::Bool(*b),
        serde_json::Value::Number(n) => JsonValue::Number(n.as_i64()),
        serde_json::Value::String(s) => JsonValue::Str(s.clone()),
        serde_json::Value::Array(a) => JsonValue::Array(a.iter().map(tree_of_value).collect()),
        serde_json::Value::Object(m) => JsonValue::Object(
            m.iter().map(|(k, x)| (k.clone(), tree_of_value(x))).collect(),
        ),
    }
}

/// Relies on serde_json::from_str: it succeeds exactly on the texts that are
/// a JSON document, and gives the same document for the same text.
#[verifier::external_body]
pub(crate) fn parse_json(s: &str) -> (r: Result<JsonValue, serde_json::Error>)
    ensures
        r is Ok <==> is_json_document(s@),
        r matches Ok(j) ==> j == json_of(s@),
{
    serde_json::from_str::<serde_json::Value>(s).map(|v| tree_of_value(&v))
}

/// The value of the first member named `key`.
pub open spec fn member_in(ms: Seq<(String, JsonValue)>, key: Seq<char>) -> Option<JsonValue>
    decreases ms.len(),
{
    if ms.len() == 0 {
        None
    } else if ms[0].0@ == key {
        Some(ms[0].1)
    } else {
        member_in(ms.drop_first(), key)
    }
}

/// The member `key` of an object; `None` for other values.
pub open spec fn member_of(j: JsonValue, key: Seq<char>) -> Option<JsonValue> {
    match j {
        JsonValue::Object(ms) => member_in(ms@, key),
        _ => None,
    }
}

/// `j[outer][inner]`.
pub open spec fn nested(j: JsonValue, outer: Seq<char>, inner: Seq<char>) -> Option<JsonValue> {
    match member_of(j, outer) {
        Some(o) => member_of(o, inner),
        None => None,
    }
}

/// The text of a JSON string.
pub open spec fn str_of(j: Option<JsonValue>) -> Option<Seq<char>> {
    match j {
        Some(JsonValue::Str(s)) => Some(s@),
        _ => None,
    }
}

/// The value of a JSON integer that fits an `i64`.
pub open spec fn i64_of(j: Option<JsonValue>) -> Option<i64> {
    match j {
        Some(JsonValue::Number(n)) => n,
        _ => None,
    }
}

/// The items of a JSON array.
pub open spec fn array_of(j: Option<JsonValue>) -> Option<Seq<JsonValue>> {
    match j {
        Some(JsonValue::Array(a)) => Some(a@),
        _ => None,
    }
}

/// The member `key` of `v`, as [`member_of`] states.
pub fn json_member<'a>(v: &'a JsonValue, key: &str) -> (r: Option<&'a JsonValue>)
    ensures
        match r {
            Some(x) => member_of(*v, key@) == Some(*x),
            None => member_of(*v, key@) is None,
        },
{
    match v {
        JsonValue::Object(ms) => {
            let mut i: usize = 0;
            assert(ms@.subrange(0, ms@.len() as int) =~= ms@);
            while i < ms.len()
                invariant
                    i <= ms@.len(),
                    member_of(*v, key@) == member_in(ms@, key@),
                    member_in(ms@, key@) == member_in(ms@.subrange(i as int, ms@.len() as int), key@),
                decreases ms@.len() - i,
            {
                assert(ms@.subrange(i as int, ms@.len() as int).drop_first() =~= ms@.subrange(
                    i + 1,
                    ms@.len() as int,
                ));
                assert(ms@.subrange(i as int, ms@.len() as int)[0] == ms@[i as int]);
                if same_text(ms[i].0.as_str(), key) {
                    assert(member_in(ms@.subrange(i as int, ms@.len() as int), key@) == Some(
                        ms@[i as int].1,
                    ));
                    return Some(&ms[i].1);
                }
                i = i + 1;
            }
            None
        },
        _ => None,
    }
}

/// The text of `v[key]`, when it is a string.
pub fn member_str(v: &JsonValue, key: &str) -> (r: Option<String>)
    ensures
        opt_text(r) == str_of(member_of(*v, key@)),
{
    match json_member(v, key) {
        Some(JsonValue::Str(s)) => Some(s.clone()),
        _ => None,
    }
}

/// The items of `v[key]`, when it is an array.
pub fn member_array<'a>(v: &'a JsonValue, key: &str) -> (r: Option<&'a Vec<JsonValue>>)
    ensures
        match r {
            Some(a) => array_of(member_of(*v, key@)) == Some(a@),
            None => array_of(member_of(*v, key@)) is None,
        },
{
    match json_member(v, key) {
        Some(JsonValue::Array(a)) => Some(a),
        _ => None,
    }
}

/// The text at `v[outer][inner]`, when it is a string.
pub fn nested_str(v: &JsonValue, outer: &str, inner: &str) -> (r: Option<String>)
    ensures
        opt_text(r) == str_of(nested(*v, outer@, inner@)),
{
    match json_member(v, outer) {
        Some(o) => member_str(o, inner),
        None => None,
    }
}

/// The integer at `v[outer][inner]`, when it is one that fits an `i64`.
pub fn nested_i64(v: &JsonValue, outer: &str, inner: &str) -> (r: Option<i64>)
    ensures
        r == i64_of(nested(*v, outer@, inner@)),
{
    match json_member(v, outer) {
        Some(o) => match json_member(o, inner) {
            Some(JsonValue::Number(n)) => *n,
            _ => None,
        },
        None => None,
    }
}

} // verus!
