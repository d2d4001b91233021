//! JSON documents as plain values, parsed by serde_json.
//!
//! Hyprland's IPC replies, the night-light status and the deck feed files
//! are JSON. serde_json parses them; the result is carried as a `Json`
//! value of this crate, which the verified readers below inspect.
use vstd::prelude::*;
use crate::text::{chars_eq, to_chars};

verus! {

/// A JSON value. Numbers keep their `i64` reading (`None` when the number
/// is not an integer that fits), as serde_json's `as_i64` gives it.
#[derive(Debug)]
pub enum Json {
    Null,
    Bool(bool),
    Number(Option<i64>),
    Str(String),
    Array(Vec<Json>),
    Object(Vec<(String, Json)>),
}

#[verifier::external_type_specification]
#[verifier::external_body]
pub struct ExJsonValue(serde_json::Value);

/// What serde_json parses a text into (`None` when it is not JSON).
pub uninterp spec fn json_of(text: Seq<char>) -> Option<Json>;

/// `serde_json::from_str::<serde_json::Value>`, converted to `Json`.
/// Claimed: the result depends on the text alone (it is `json_of(text)`).
#[verifier::external_body]
pub fn parse_json(text: &str) -> (r: Option<Json>)
    ensures
        r == json_of(text@),
{
    serde_json::from_str::<serde_json::Value>(text).ok().map(from_value)
}

/// serde_json's `Value` as a `Json`, variant by variant.
#[verifier::external_body]
fn from_value(v: serde_json::Value) -> Json {
    match v {
        serde_json::Value::Null => Json::Null,
        serde_json::Value::Bool(b) => Json::Bool(b),
        serde_json::Value::Number(n) => Json::Number(n.as_i64()),
        serde_json::Value::String(s) => Json::Str(s),
        serde_json::Value::Array(a) => Json::Array(a.into_iter().map(from_value).collect()),
        serde_json::Value::Object(m) => Json::Object(
            m.into_iter().map(|(k, x)| (k, from_value(x))).collect(),
        ),
    }
}

/// `value.get(key)`: the member `key` of an object.
pub open spec fn member(v: Json, key: Seq<char>) -> Option<Json> {
    match v {
        Json::Object(m) => field(m@, key),
        _ => None,
    }
}

/// The first entry named `key`.
pub open spec fn field(m: Seq<(String, Json)>, key: Seq<char>) -> Option<Json>
    decreases m.len(),
{
    if m.len() == 0 {
        None
    } else if m[0].0@ == key {
        Some(m[0].1)
    } else {
        field(m.drop_first(), key)
    }
}

pub open spec fn as_i64(v: Option<Json>) -> Option<i64> {
    match v {
        Some(Json::Number(n)) => n,
        _ => None,
    }
}

pub open spec fn as_bool(v: Option<Json>) -> Option<bool> {
    match v {
        Some(Json::Bool(b)) => Some(b),
        _ => None,
    }
}

pub open spec fn as_str(v: Option<Json>) -> Option<Seq<char>> {
    match v {
        Some(Json::Str(s)) => Some(s@),
        _ => None,
    }
}

/// `value.get(key)`.
pub fn get<'a>(v: &'a Json, key: &str) -> (r: Option<&'a Json>)
    ensures
        match r {
            Some(x) => member(*v, key@) == Some(*x),
            None => member(*v, key@) is None,
        },
{
    match v {
        Json::Object(m) => {
            let k = to_chars(key);
            let mut i: usize = 0;
            assert(m@.subrange(0, m.len() as int) =~= m@);
            while i < m.len()
                invariant
                    i <= m.len(),
                    k@ == key@,
                    member(*v, key@) == field(m@, key@),
                    field(m@, key@) == field(m@.subrange(i as int, m.len() as int), key@),
                decreases m.len() - i,
            {
                let name = to_chars(m[i].0.as_str());
                assert(m@.subrange(i as int, m.len() as int)[0] == m@[i as int]);
                if chars_eq(&name, &k) {
                    return Some(&m[i].1);
                }
                assert(m@.subrange(i as int, m.len() as int).drop_first() =~= m@.subrange(
                    i + 1,
                    m.len() as int,
                ));
                i += 1;
            }
            None
        },
        _ => None,
    }
}

/// `value.as_i64()` of an optional value.
pub fn int_of(v: Option<&Json>) -> (r: Option<i64>)
    ensures
        r == as_i64(match v {
            Some(x) => Some(*x),
            None => None,
        }),
{
    match v {
        Some(Json::Number(n)) => *n,
        _ => None,
    }
}

/// `value.as_bool()` of an optional value.
pub fn bool_of(v: Option<&Json>) -> (r: Option<bool>)
    ensures
        r == as_bool(match v {
            Some(x) => Some(*x),
            None => None,
        }),
{
    match v {
        Some(Json::Bool(b)) => Some(*b),
        _ => None,
    }
}

/// `value.as_str()` of an optional value.
pub fn str_of<'a>(v: Option<&'a Json>) -> (r: Option<&'a String>)
    ensures
        match r {
            Some(s) => as_str(match v {
                Some(x) => Some(*x),
                None => None,
            }) == Some(s@),
            None => as_str(match v {
                Some(x) => Some(*x),
                None => None,
            }) is None,
        },
{
    match v {
        Some(Json::Str(s)) => Some(s),
        _ => None,
    }
}

} // verus!
