//! A JSON document as plain values, read from its text with `serde_json`,
//! and the lookups that the report reader makes in one.

use vstd::prelude::*;
use crate::text::str_eq;

verus! {

/// A JSON value. Numbers are kept as their text; an object keeps its members
/// in order, and a lookup finds the last member with the key, as a parsed
/// JSON object (whose later members replace earlier ones) does.
#[derive(Debug, PartialEq)]
pub enum JsonValue {
    Null,
    Bool(bool),
    Number(String),
    Str(String),
    Array(Vec<JsonValue>),
    Object(Vec<(String, JsonValue)>),
}

/// The value of the last member named `key`.
pub open spec fn member(entries: Seq<(String, JsonValue)>, key: Seq<char>) -> Option<JsonValue>
    decreases entries.len(),
{
    if entries.len() == 0 {
        None
    } else if entries.last().0@ == key {
        Some(entries.last().1)
    } else {
        member(entries.drop_last(), key)
    }
}

/// `Value::get` with a string key: a member of an object, and nothing for any
/// other value.
pub open spec fn json_get(v: JsonValue, key: Seq<char>) -> Option<JsonValue> {
    match v {
        JsonValue::Object(entries) => member(entries@, key),
        _ => None,
    }
}

/// `Value::as_str` applied to an optional value.
pub open spec fn json_str(v: Option<JsonValue>) -> Option<Seq<char>> {
    match v {
        Some(JsonValue::Str(s)) => Some(s@),
        _ => None,
    }
}

/// `Value::as_array` applied to an optional value.
pub open spec fn json_array(v: Option<JsonValue>) -> Option<Seq<JsonValue>> {
    match v {
        Some(JsonValue::Array(items)) => Some(items@),
        _ => None,
    }
}

/// Looks up a member of an object.
pub fn get<'a>(v: &'a JsonValue, key: &str) -> (res: Option<&'a JsonValue>)
    ensures
        match res {
            Some(r) => json_get(*v, key@) == Some(*r),
            None => json_get(*v, key@) is None,
        },
{
    match v {
        JsonValue::Object(entries) => {
            let mut i: usize = entries.len();
            proof {
                assert(entries@.take(i as int) == entries@);
            }
            while i > 0
                invariant
                    json_get(*v, key@) == member(entries@, key@),
                    i <= entries@.len(),
                    member(entries@, key@) == member(entries@.take(i as int), key@),
                decreases i,
            {
                let ghost t = entries@.take(i as int);
                proof {
                    assert(t.last() == entries@[i - 1]);
                    assert(t.drop_last() == entries@.take(i - 1));
                }
                if str_eq(entries[i - 1].0.as_str(), key) {
                    proof {
                        assert(t.last().0@ == key@);
                        assert(member(t, key@) == Some(t.last().1));
                    }
                    return Some(&entries[i - 1].1);
                }
                i = i - 1;
            }
            None
        },
        _ => None,
    }
}

/// The string held by an optional value, if it holds one.
pub fn as_str<'a>(v: Option<&'a JsonValue>) -> (res: Option<&'a String>)
    ensures
        match res {
            Some(s) => json_str(match v { Some(x) => Some(*x), None => None }) == Some(s@),
            None => json_str(match v { Some(x) => Some(*x), None => None }) is None,
        },
{
    match v {
        Some(JsonValue::Str(s)) => Some(s),
        _ => None,
    }
}

// ---------------------------------------------------------------------------
// Reading a document
// ---------------------------------------------------------------------------

/// `serde_json::Value`, held opaque.
#[verifier::external_type_specification]
#[verifier::external_body]
pub struct ExSerdeValue(serde_json::Value);

/// What `serde_json::from_str::<serde_json::Value>` reads from a text, as a
/// [`JsonValue`] (numbers by the text `serde_json` writes for them, object
/// members in the order the parsed map keeps them), or nothing when the
/// text is not one JSON document.
pub uninterp spec fn json_document(text: Seq<char>) -> Option<JsonValue>;

/// Copies a `serde_json::Value` into a [`JsonValue`], variant for variant
/// (a number by `Number::to_string`). Part of [`parse_json_document`]'s
/// conversion; nothing is stated of it on its own.
#[verifier::external_body]
fn plain_json(v: serde_json::Value) -> JsonValue {
    match v {
        serde_json::Value::Null => JsonValue::Null,
        serde_json::Value::Bool(b) => JsonValue::Bool(b),
        serde_json::Value::Number(n) => JsonValue::Number(n.to_string()),
        serde_json::Value::String(s) => JsonValue::Str(s),
        serde_json::Value::Array(a) => JsonValue::Array(a.into_iter().map(plain_json).collect()),
        serde_json::Value::Object(m) => JsonValue::Object(m.into_iter().map(|(k, v)| (k, plain_json(v))).collect()),
    }
}

/// `serde_json::from_str::<serde_json::Value>`: the document a text holds,
/// copied by [`plain_json`], or `None` when the text does not parse. The
/// result is named: the JSON grammar is not written out here.
#[verifier::external_body]
pub(crate) fn parse_json_document(text: &str) -> (res: Option<JsonValue>)
    ensures
        res == json_document(text@),
{
    serde_json::from_str::<serde_json::Value>(text).ok().map(plain_json)
}

} // verus!
