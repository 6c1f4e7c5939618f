//! A JSON document tree, as the SEMP responses are serialized.

use vstd::prelude::*;

verus! {

/// A JSON number, split the way a JSON parser keeps it.
#[derive(Clone, Copy, Debug)]
pub enum JsonNumber {
    /// A non-negative integer.
    PosInt(u64),
    /// A negative integer.
    NegInt(i64),
    /// A number with a fraction or an exponent; its value is not kept.
    Float,
}

impl JsonNumber {
    /// The number as an `i64`, where it is an integer that fits.
    pub open spec fn int_value(self) -> Option<i64> {
        match self {
            JsonNumber::PosInt(n) => if n <= i64::MAX as u64 {
                Some(n as i64)
            } else {
                None
            },
            JsonNumber::NegInt(n) => Some(n),
            JsonNumber::Float => None,
        }
    }

    /// The number as an `i64`, where it is an integer that fits.
    pub fn as_i64(&self) -> (r: Option<i64>)
        ensures
            r == self.int_value(),
    {
        match self {
            JsonNumber::PosInt(n) => if *n <= i64::MAX as u64 {
                Some(*n as i64)
            } else {
                None
            },
            JsonNumber::NegInt(n) => Some(*n),
            JsonNumber::Float => None,
        }
    }
}

/// A JSON value. An object keeps its members in order.
#[derive(Debug)]
pub enum JsonValue {
    Null,
    Bool(bool),
    Number(JsonNumber),
    String(String),
    Array(Vec<JsonValue>),
    Object(Vec<(String, JsonValue)>),
}

impl JsonValue {
    /// The value as an `i64`: a number that is an integer and fits.
    pub open spec fn int_value(self) -> Option<i64> {
        match self {
            JsonValue::Number(n) => n.int_value(),
            _ => None,
        }
    }

    /// The value as an `i64`: a number that is an integer and fits.
    pub fn as_i64(&self) -> (r: Option<i64>)
        ensures
            r == self.int_value(),
    {
        match self {
            JsonValue::Number(n) => n.as_i64(),
            _ => None,
        }
    }
}

#[verifier::external_type_specification]
#[verifier::external_body]
pub struct ExSerdeJsonValue(serde_json::Value);

/// The document that JSON text denotes, where the text is JSON: what
/// `serde_json::from_str` parses it into, with every object's members in the
/// order in which serde_json's map keeps them.
pub uninterp spec fn parsed_json(text: Seq<char>) -> Option<JsonValue>;

/// Calls `serde_json::from_str` into a `serde_json::Value` and converts the
/// value, variant by variant, into a `JsonValue`; `None` where serde_json
/// refuses the text. The result is the name `parsed_json` of the text.
#[verifier::external_body]
pub fn parse_json(text: &str) -> (r: Option<JsonValue>)
    ensures
        r == parsed_json(text@),
{
    serde_json::from_str::<serde_json::Value>(text).ok().map(json_from_serde)
}

/// Converts a `serde_json::Value` into a `JsonValue`, variant by variant,
/// keeping an object's members in the order serde_json iterates them. Only
/// `parse_json` calls it; nothing is stated of it here.
#[verifier::external_body]
fn json_from_serde(v: serde_json::Value) -> JsonValue {
    match v {
        serde_json::Value::Null => JsonValue::Null,
        serde_json::Value::Bool(b) => JsonValue::Bool(b),
        serde_json::Value::Number(n) => JsonValue::Number(match (n.as_u64(), n.as_i64()) {
            (Some(u), _) => JsonNumber::PosInt(u),
            (None, Some(i)) => JsonNumber::NegInt(i),
            _ => JsonNumber::Float,
        }),
        serde_json::Value::String(s) => JsonValue::String(s),
        serde_json::Value::Array(a) => JsonValue::Array(a.into_iter().map(json_from_serde).collect()),
        serde_json::Value::Object(m) => JsonValue::Object(
            m.into_iter().map(|(k, v)| (k, json_from_serde(v))).collect(),
        ),
    }
}

} // verus!
