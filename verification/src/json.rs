//! A JSON document as the quota logic reads it. The caller parses the Codex
//! app-server replies with serde_json and converts each value one for one:
//! objects keep their entries in the order serde_json's map walks them, and a
//! number keeps what the logic reads of it, its value as an `i64` (when it is
//! one) and its value in millionths.
use vstd::prelude::*;
use crate::text::{chars_of, copy_string};

verus! {

broadcast use vstd::string::group_string_axioms;

/// What the quota logic reads of a JSON number.
#[derive(Debug, Clone, Copy, PartialEq, Eq)]
pub struct JsonNumber {
    /// The number as an `i64`, when it is an integer in range (serde_json's `as_i64`).
    pub integer: Option<i64>,
    /// The number in millionths, when it fits (serde_json's `as_f64`, scaled).
    pub millionths: Option<i64>,
}

/// A JSON value.
#[derive(Debug)]
pub enum JsonValue {
    Null,
    Bool(bool),
    Number(JsonNumber),
    String(String),
    Array(Vec<JsonValue>),
    /// An object: member names and, at the same positions, their values.
    Object(Vec<String>, Vec<JsonValue>),
}

/// The value of the first entry named `key`.
pub open spec fn entry_value(names: Seq<String>, values: Seq<JsonValue>, key: Seq<char>) -> Option<JsonValue>
    decreases names.len(),
{
    if names.len() == 0 || values.len() == 0 {
        None
    } else if names[0]@ == key {
        Some(values[0])
    } else {
        entry_value(names.drop_first(), values.drop_first(), key)
    }
}

/// The member `key` of an object; none for other values.
pub open spec fn json_get(v: JsonValue, key: Seq<char>) -> Option<JsonValue> {
    match v {
        JsonValue::Object(names, values) => entry_value(names@, values@, key),
        _ => None,
    }
}

/// The member `key` of an optional value.
pub open spec fn json_get_opt(v: Option<JsonValue>, key: Seq<char>) -> Option<JsonValue> {
    match v {
        Some(x) => json_get(x, key),
        None => None,
    }
}

/// The integer of an optional number value.
pub open spec fn json_i64(v: Option<JsonValue>) -> Option<i64> {
    match v {
        Some(JsonValue::Number(n)) => n.integer,
        _ => None,
    }
}

/// The value in millionths of an optional number value.
pub open spec fn json_millionths(v: Option<JsonValue>) -> Option<i64> {
    match v {
        Some(JsonValue::Number(n)) => n.millionths,
        _ => None,
    }
}

/// The text of an optional string value.
pub open spec fn json_str(v: Option<JsonValue>) -> Option<Seq<char>> {
    match v {
        Some(JsonValue::String(s)) => Some(s@),
        _ => None,
    }
}

/// The value an optional reference points to.
pub open spec fn deref_json(v: Option<&JsonValue>) -> Option<JsonValue> {
    match v {
        Some(x) => Some(*x),
        None => None,
    }
}

impl JsonValue {
    /// The member `key` of an object (serde_json's `Value::get` with a key).
    pub fn get(&self, key: &str) -> (r: Option<&JsonValue>)
        ensures
            deref_json(r) == json_get(*self, key@),
    {
        match self {
            JsonValue::Object(names, values) => {
                let k = chars_of(key);
                assert(json_get(*self, key@) == entry_value(names@, values@, key@));
                let mut i: usize = 0;
                assert(names@.skip(0) =~= names@);
                assert(values@.skip(0) =~= values@);
                while i < names.len() && i < values.len()
                    invariant
                        i <= names@.len(),
                        i <= values@.len(),
                        k@ == key@,
                        json_get(*self, key@) == entry_value(names@, values@, key@),
                        entry_value(names@, values@, key@) == entry_value(names@.skip(i as int), values@.skip(i as int), key@),
                    decreases names@.len() - i,
                {
                    let ghost rest_n = names@.skip(i as int);
                    let ghost rest_v = values@.skip(i as int);
                    assert(rest_n[0] == names@[i as int]);
                    assert(rest_v[0] == values@[i as int]);
                    let name = chars_of(names[i].as_str());
                    if crate::text::chars_eq(&name, &k) {
                        assert(rest_n.len() > 0 && rest_v.len() > 0);
                        assert(rest_n[0]@ == key@);
                        assert(entry_value(rest_n, rest_v, key@) == Some(rest_v[0]));
                        let found = &values[i];
                        assert(*found == values@[i as int]);
                        assert(deref_json(Some(found)) == json_get(*self, key@));
                        return Some(found);
                    }
                    assert(rest_n.drop_first() =~= names@.skip(i + 1));
                    assert(rest_v.drop_first() =~= values@.skip(i + 1));
                    i = i + 1;
                }
                None
            },
            _ => None,
        }
    }

    /// Whether the value is `null`.
    pub fn is_null(&self) -> (r: bool)
        ensures
            r == (*self is Null),
    {
        match self {
            JsonValue::Null => true,
            _ => false,
        }
    }

    /// The string, when the value is one.
    pub fn as_str(&self) -> (r: Option<&String>)
        ensures
            match r {
                Some(s) => json_str(Some(*self)) == Some(s@),
                None => json_str(Some(*self)) is None,
            },
    {
        match self {
            JsonValue::String(s) => Some(s),
            _ => None,
        }
    }

    /// The number as an `i64`, when the value is such a number.
    pub fn as_i64(&self) -> (r: Option<i64>)
        ensures
            r == json_i64(Some(*self)),
    {
        match self {
            JsonValue::Number(n) => n.integer,
            _ => None,
        }
    }

    /// The number in millionths, when the value is a number that fits.
    pub fn as_millionths(&self) -> (r: Option<i64>)
        ensures
            r == json_millionths(Some(*self)),
    {
        match self {
            JsonValue::Number(n) => n.millionths,
            _ => None,
        }
    }
}

/// The member `key` of an optional value.
pub fn get_opt<'a>(v: Option<&'a JsonValue>, key: &str) -> (r: Option<&'a JsonValue>)
    ensures
        deref_json(r) == json_get_opt(deref_json(v), key@),
{
    match v {
        Some(x) => x.get(key),
        None => None,
    }
}

/// The integer of an optional value.
pub fn opt_i64(v: Option<&JsonValue>) -> (r: Option<i64>)
    ensures
        r == json_i64(deref_json(v)),
{
    match v {
        Some(x) => x.as_i64(),
        None => None,
    }
}

/// The number in millionths of an optional value.
pub fn opt_millionths(v: Option<&JsonValue>) -> (r: Option<i64>)
    ensures
        r == json_millionths(deref_json(v)),
{
    match v {
        Some(x) => x.as_millionths(),
        None => None,
    }
}

/// A copy of the string of an optional value.
pub fn opt_string(v: Option<&JsonValue>) -> (r: Option<String>)
    ensures
        crate::text::opt_chars(r) == json_str(deref_json(v)),
{
    match v {
        Some(x) => match x.as_str() {
            Some(s) => Some(copy_string(s)),
            None => None,
        },
        None => None,
    }
}

} // verus!
