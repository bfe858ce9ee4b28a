//! The trusted boundary to the external JSON parser.
//!
//! The engine itself only reads [`crate::value::Value`] trees; this module
//! turns JSON text into such a tree through `serde_json`.

use serde_json::Value as JsonValue;
use vstd::prelude::*;

verus! {

/// `serde_json`'s document value, declared so the conversion below can take
/// it as an argument.
#[verifier::external_type_specification]
#[verifier::external_body]
pub struct ExJsonValue(JsonValue);

/// What parsing a text yields: `None` where the text is not well-formed JSON.
/// The result is a function of the text alone.
pub uninterp spec fn parsed_doc(text: Seq<char>) -> Option<crate::value::Value>;

/// Relies on `serde_json::Value`: the parsed tree is rebuilt as the library's
/// own value, one variant arm each, moving fields only; numbers are rendered
/// to their canonical decimal text by `serde_json`'s own rendering.
#[verifier::external_body]
fn convert_json(v: &JsonValue) -> crate::value::Value {
    match v {
        JsonValue::Null => crate::value::Value::Null,
        JsonValue::Bool(b) => crate::value::Value::Bool(*b),
        JsonValue::Number(n) => crate::value::Value::Number(n.to_string()),
        JsonValue::String(s) => crate::value::Value::Str(s.clone()),
        JsonValue::Array(a) => crate::value::Value::Array(a.iter().map(convert_json).collect()),
        JsonValue::Object(m) => crate::value::Value::Object(
            m.iter().map(|(k, x)| (k.clone(), convert_json(x))).collect(),
        ),
    }
}

/// Relies on `serde_json::from_str`: parses JSON text into a document tree,
/// rebuilt as the library's own value; the result depends on the text alone,
/// and `parsed_doc` names it.
#[verifier::external_body]
pub(crate) fn parse_json(text: &str) -> (r: Option<crate::value::Value>)
    ensures
        r == parsed_doc(text@),
{
    match serde_json::from_str::<JsonValue>(text) {
        Ok(v) => Some(convert_json(&v)),
        Err(_) => None,
    }
}

} // verus!
