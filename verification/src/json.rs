//! JSON values held by Records.
//!
//! A value keeps the distinctions that the commands read: integers are held
//! exactly (non-negative ones as `PosInt`, negative ones as `NegInt`), other
//! numbers by their JSON text, strings by their content, and arrays and
//! objects by their compact JSON text.
use vstd::prelude::*;

verus! {

#[derive(Debug, Clone, PartialEq, Eq)]
pub enum JsonValue {
    Null,
    Bool(bool),
    /// A negative integer.
    NegInt(i64),
    /// A non-negative integer.
    PosInt(u64),
    /// A number that is not an integer, by its JSON text.
    Float(String),
    /// A string, by its content.
    Str(String),
    /// An array or object, by its compact JSON text.
    Composite(String),
}

/// The exact integer a value denotes, if it is an integer of the JSON range
/// (`i64` or `u64`).
pub open spec fn exact_integer_spec(v: JsonValue) -> Option<int> {
    match v {
        JsonValue::NegInt(i) => Some(i as int),
        JsonValue::PosInt(u) => Some(u as int),
        _ => None,
    }
}

/// The canonical value of an integer, if it lies in the JSON integer range.
pub open spec fn integer_value_spec(i: int) -> Option<JsonValue> {
    if 0 <= i <= u64::MAX {
        Some(JsonValue::PosInt(i as u64))
    } else if i64::MIN <= i < 0 {
        Some(JsonValue::NegInt(i as i64))
    } else {
        None
    }
}

impl JsonValue {
    /// A copy equal to `self`.
    pub fn copied(&self) -> (r: Self)
        ensures
            r == *self,
    {
        match self {
            JsonValue::Null => JsonValue::Null,
            JsonValue::Bool(b) => JsonValue::Bool(*b),
            JsonValue::NegInt(i) => JsonValue::NegInt(*i),
            JsonValue::PosInt(u) => JsonValue::PosInt(*u),
            JsonValue::Float(t) => JsonValue::Float(t.clone()),
            JsonValue::Str(t) => JsonValue::Str(t.clone()),
            JsonValue::Composite(t) => JsonValue::Composite(t.clone()),
        }
    }

    /// The canonical JSON value of an integer.
    pub fn integer(i: i64) -> (r: Self)
        ensures
            integer_value_spec(i as int) == Some(r),
    {
        if i >= 0 {
            JsonValue::PosInt(i as u64)
        } else {
            JsonValue::NegInt(i)
        }
    }

    /// A JSON string value.
    pub fn text(s: &str) -> (r: Self)
        ensures
            r matches JsonValue::Str(t) && t@ == s@,
    {
        JsonValue::Str(String::from_str(s))
    }

    /// The string content of a JSON string value.
    pub fn as_str(&self) -> (r: Option<&str>)
        ensures
            self matches JsonValue::Str(t) ==> (r matches Some(u) && u@ == t@),
            !(self is Str) ==> r is None,
    {
        match self {
            JsonValue::Str(t) => Some(t.as_str()),
            _ => None,
        }
    }
}

/// The integer a value holds, if any.
pub fn exact_integer(value: &JsonValue) -> (r: Option<i128>)
    ensures
        r matches Some(i) ==> exact_integer_spec(*value) == Some(i as int),
        r is None ==> exact_integer_spec(*value) is None,
{
    match value {
        JsonValue::NegInt(i) => Some(*i as i128),
        JsonValue::PosInt(u) => Some(*u as i128),
        _ => None,
    }
}

/// The canonical JSON value of an integer, or `None`
/// when it exceeds the JSON integer range.
pub fn integer_json_value(value: i128) -> (r: Option<JsonValue>)
    ensures
        r == integer_value_spec(value as int),
{
    if 0 <= value && value <= u64::MAX as i128 {
        Some(JsonValue::PosInt(value as u64))
    } else if i64::MIN as i128 <= value && value < 0 {
        Some(JsonValue::NegInt(value as i64))
    } else {
        None
    }
}

} // verus!
