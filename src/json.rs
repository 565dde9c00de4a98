//! The structured values that the generator's records are written in.
use vstd::prelude::*;

verus! {

/// A JSON value. A number is kept as plain decimal text: an integer as it is
/// written, any other number with nine decimal places.
#[derive(Debug)]
pub enum Json {
    Null,
    Bool(bool),
    Number(String),
    Str(String),
    Array(Vec<Json>),
    Object(Vec<(String, Json)>),
}

#[verifier::external_type_specification]
#[verifier::external_body]
pub struct ExValue(serde_json::Value);

/// The value that JSON text stands for, or `None` where it is not JSON.
pub uninterp spec fn json_parse(s: Seq<char>) -> Option<Json>;

/// Relies on serde_json::Value's variants and on `serde_json::Number`: each
/// variant is carried over to the same variant, arrays and objects element by
/// element in their order; an integer as its `Display` text, any other number
/// (`Number::is_f64`) in plain decimal with nine places.
#[verifier::external_body]
fn json_of_value(v: serde_json::Value) -> Json {
    match v {
        serde_json::Value::Null => Json::Null,
        serde_json::Value::Bool(b) => Json::Bool(b),
        serde_json::Value::Number(n) if n.is_f64() => Json::Number(
            format!("{:.9}", n.as_f64().unwrap_or_default()),
        ),
        serde_json::Value::Number(n) => Json::Number(n.to_string()),
        serde_json::Value::String(s) => Json::Str(s),
        serde_json::Value::Array(a) => Json::Array(a.into_iter().map(json_of_value).collect()),
        serde_json::Value::Object(o) => Json::Object(
            o.into_iter().map(|(k, x)| (k, json_of_value(x))).collect(),
        ),
    }
}

/// Relies on serde_json::from_str::<serde_json::Value>: whether text parses,
/// and to what, depends on the text alone.
#[verifier::external_body]
pub fn parse_json(s: &str) -> (r: Option<Json>)
    ensures
        r == json_parse(s@),
{
    serde_json::from_str::<serde_json::Value>(s).ok().map(json_of_value)
}

} // verus!
