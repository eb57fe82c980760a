use vstd::prelude::*;
use crate::json::Json;

verus! {

/// The JSON value type of serde_json, declared so that the conversion
/// below may name it.
#[verifier::external_type_specification]
#[verifier::external_body]
pub struct ExValue(serde_json::Value);

/// What parsing the text as JSON yields: `None` when the text is not a
/// JSON document. Named only; the parser itself is serde_json's.
pub uninterp spec fn json_parse(s: Seq<char>) -> Option<Json>;

/// Relies on the shape of serde_json::Value and on serde_json's
/// Number::to_string: carries a parsed value over variant by variant; a
/// number keeps the text serde_json renders for it.
#[verifier::external_body]
fn value_to_json(v: serde_json::Value) -> Json {
    match v {
        serde_json::Value::Null => Json::Null,
        serde_json::Value::Bool(b) => Json::Bool(b),
        serde_json::Value::Number(n) => Json::Num(n.to_string()),
        serde_json::Value::String(s) => Json::Str(s),
        serde_json::Value::Array(a) => Json::Arr(a.into_iter().map(value_to_json).collect()),
        serde_json::Value::Object(o) => Json::Obj(
            o.into_iter().map(|(k, w)| (k, value_to_json(w))).collect(),
        ),
    }
}

/// Relies on serde_json::from_str::<serde_json::Value>: whether the text
/// parses, and to what, depends on the text alone.
#[verifier::external_body]
pub fn parse_json(s: &str) -> (r: Option<Json>)
    ensures
        r == json_parse(s@),
{
    match serde_json::from_str::<serde_json::Value>(s) {
        Ok(v) => Some(value_to_json(v)),
        Err(_) => None,
    }
}

} // verus!
