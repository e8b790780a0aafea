//! JSON values as the library reads them, parsed and printed by `serde_json`.

use vstd::prelude::*;
use crate::text::{chars_eq, chars_of};

verus! {

/// A JSON number: its canonical text and, when it is a non-negative integer
/// that fits, its value (`Number::as_u64`).
#[derive(Debug)]
pub struct JsonNumber {
    pub text: String,
    pub as_u64: Option<u64>,
}

/// A parsed JSON value. Object members keep the order `serde_json` yields
/// them in; keys are distinct.
#[derive(Debug)]
pub enum Json {
    Null,
    Bool(bool),
    Number(JsonNumber),
    Str(String),
    Array(Vec<Json>),
    Object(Vec<(String, Json)>),
}

#[verifier::external_type_specification]
#[verifier::external_body]
pub struct ExJsonValue(serde_json::Value);

/// What `serde_json::from_str` makes of `text`: the value, or the text of
/// the parse error.
pub uninterp spec fn json_parse(text: Seq<char>) -> Result<Json, Seq<char>>;

/// What `serde_json::to_string` prints for a value (compact form).
pub uninterp spec fn json_print(v: Json) -> Seq<char>;

/// The `serde_json` value for one of ours (member for member).
#[verifier::external_body]
fn to_value(j: &Json) -> serde_json::Value {
    match j {
        Json::Null => serde_json::Value::Null,
        Json::Bool(b) => serde_json::Value::Bool(*b),
        Json::Number(n) => n.text.parse().map(serde_json::Value::Number).unwrap_or(serde_json::Value::Null),
        Json::Str(s) => serde_json::Value::String(s.clone()),
        Json::Array(a) => serde_json::Value::Array(a.iter().map(to_value).collect()),
        Json::Object(m) => serde_json::Value::Object(m.iter().map(|(k, v)| (k.clone(), to_value(v))).collect()),
    }
}

/// Our value for a `serde_json` one (member for member).
#[verifier::external_body]
fn from_value(v: serde_json::Value) -> Json {
    match v {
        serde_json::Value::Null => Json::Null,
        serde_json::Value::Bool(b) => Json::Bool(b),
        serde_json::Value::Number(n) => Json::Number(JsonNumber { text: n.to_string(), as_u64: n.as_u64() }),
        serde_json::Value::String(s) => Json::Str(s),
        serde_json::Value::Array(a) => Json::Array(a.into_iter().map(from_value).collect()),
        serde_json::Value::Object(m) => Json::Object(m.into_iter().map(|(k, v)| (k, from_value(v))).collect()),
    }
}

/// Parse JSON text with `serde_json::from_str`; the error is its message.
#[verifier::external_body]
pub(crate) fn parse_json(text: &str) -> (r: Result<Json, String>)
    ensures
        json_parse(text@) == (match r {
            Ok(j) => Ok::<Json, Seq<char>>(j),
            Err(e) => Err::<Json, Seq<char>>(e@),
        }),
{
    serde_json::from_str::<serde_json::Value>(text).map(from_value).map_err(|e| e.to_string())
}

/// Print a value as compact JSON with `serde_json::to_string`.
#[verifier::external_body]
pub(crate) fn print_json(v: &Json) -> (r: String)
    ensures
        r@ == json_print(*v),
{
    serde_json::Value::to_string(&to_value(v))
}

/// The member `key` of an object (the first one with that key), if any.
pub open spec fn field(v: Json, key: Seq<char>) -> Option<Json> {
    match v {
        Json::Object(m) => first_with_key(m@, key, 0),
        _ => None,
    }
}

pub open spec fn first_with_key(m: Seq<(String, Json)>, key: Seq<char>, i: int) -> Option<Json>
    decreases m.len() - i,
{
    if i < 0 || i >= m.len() {
        None
    } else if m[i].0@ == key {
        Some(m[i].1)
    } else {
        first_with_key(m, key, i + 1)
    }
}

/// The string held by a value (`Value::as_str`).
pub open spec fn str_of(v: Json) -> Option<Seq<char>> {
    match v {
        Json::Str(s) => Some(s@),
        _ => None,
    }
}

/// The string member `key`, if the value is an object with such a member.
pub open spec fn str_field(v: Json, key: Seq<char>) -> Option<Seq<char>> {
    match field(v, key) {
        Some(x) => str_of(x),
        None => None,
    }
}

/// The non-negative integer member `key` (`get(key).and_then(as_u64)`).
pub open spec fn u64_field(v: Json, key: Seq<char>) -> Option<u64> {
    match field(v, key) {
        Some(Json::Number(n)) => n.as_u64,
        _ => None,
    }
}

/// The boolean member `key` (`get(key).and_then(as_bool)`).
pub open spec fn bool_field(v: Json, key: Seq<char>) -> Option<bool> {
    match field(v, key) {
        Some(Json::Bool(b)) => Some(b),
        _ => None,
    }
}

impl Json {
    /// `Value::get(key)`: the member `key` of an object.
    pub fn get(&self, key: &str) -> (r: Option<&Json>)
        ensures
            r matches Some(x) ==> field(*self, key@) == Some(*x),
            r is None ==> field(*self, key@) is None,
    {
        match self {
            Json::Object(m) => {
                let k = chars_of(key);
                let mut i: usize = 0;
                while i < m.len()
                    invariant
                        i <= m.len(),
                        k@ == key@,
                        *self == Json::Object(*m),
                        first_with_key(m@, key@, 0) == first_with_key(m@, key@, i as int),
                    decreases m.len() - i,
                {
                    let mk = chars_of(m[i].0.as_str());
                    if chars_eq(&mk, &k) {
                        assert(m@[i as int].0@ == key@);
                        assert(first_with_key(m@, key@, i as int) == Some(m@[i as int].1));
                        return Some(&m[i].1);
                    }
                    i += 1;
                }
                None
            },
            _ => None,
        }
    }

    /// `Value::as_str`.
    pub fn as_str(&self) -> (r: Option<&str>)
        ensures
            r matches Some(s) ==> str_of(*self) == Some(s@),
            r is None ==> str_of(*self) is None,
    {
        match self {
            Json::Str(s) => Some(s.as_str()),
            _ => None,
        }
    }

    /// `Value::as_u64`.
    pub fn as_u64(&self) -> (r: Option<u64>)
        ensures
            r == (match *self {
                Json::Number(n) => n.as_u64,
                _ => None,
            }),
    {
        match self {
            Json::Number(n) => n.as_u64,
            _ => None,
        }
    }

    /// `Value::as_bool`.
    pub fn as_bool(&self) -> (r: Option<bool>)
        ensures
            r == (match *self {
                Json::Bool(b) => Some(b),
                _ => None,
            }),
    {
        match self {
            Json::Bool(b) => Some(*b),
            _ => None,
        }
    }

    /// Whether the value is an object.
    pub fn is_object(&self) -> (r: bool)
        ensures
            r == (*self is Object),
    {
        match self {
            Json::Object(_) => true,
            _ => false,
        }
    }
}

/// The string member `key`.
pub fn get_str<'a>(v: &'a Json, key: &str) -> (r: Option<&'a str>)
    ensures
        r matches Some(s) ==> str_field(*v, key@) == Some(s@),
        r is None ==> str_field(*v, key@) is None,
{
    match v.get(key) {
        Some(x) => x.as_str(),
        None => None,
    }
}

/// The non-negative integer member `key`.
pub fn get_u64(v: &Json, key: &str) -> (r: Option<u64>)
    ensures
        r == u64_field(*v, key@),
{
    match v.get(key) {
        Some(x) => x.as_u64(),
        None => None,
    }
}

/// The boolean member `key`.
pub fn get_bool(v: &Json, key: &str) -> (r: Option<bool>)
    ensures
        r == bool_field(*v, key@),
{
    match v.get(key) {
        Some(x) => x.as_bool(),
        None => None,
    }
}

} // verus!
