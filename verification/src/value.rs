//! The in-memory representation of a parsed document, and the rendering of
//! scalar values to their canonical text form.

use vstd::prelude::*;

verus! {

broadcast use vstd::std_specs::vec::axiom_vec_index_decreases;

/// A tree-shaped document value.
///
/// Objects keep their fields in document order as a list of pairs; numbers
/// carry the canonical decimal text the external parser rendered them to, so
/// that the engine itself never touches machine floating point.
pub enum Value {
    Null,
    Bool(bool),
    Number(String),
    Str(String),
    Array(Vec<Value>),
    Object(Vec<(String, Value)>),
}

/// A value that becomes a cell of a row: everything but objects and arrays.
pub open spec fn is_scalar(v: Value) -> bool {
    match v {
        Value::Null => true,
        Value::Bool(_) => true,
        Value::Number(_) => true,
        Value::Str(_) => true,
        Value::Array(_) => false,
        Value::Object(_) => false,
    }
}

/// The canonical text form of a scalar: strings and numbers verbatim,
/// booleans as `true`/`false`, null as the empty string.  Objects and arrays
/// are never rendered; they are given the empty string here only to keep the
/// function total.
pub open spec fn render(v: Value) -> Seq<char> {
    match v {
        Value::Null => Seq::empty(),
        Value::Bool(b) => if b {
            "true"@
        } else {
            "false"@
        },
        Value::Number(n) => n@,
        Value::Str(s) => s@,
        Value::Array(_) => Seq::empty(),
        Value::Object(_) => Seq::empty(),
    }
}

/// Renders a scalar value to its canonical text form.
pub fn format_value(v: &Value) -> (r: String)
    ensures
        r@ == render(*v),
{
    match v {
        Value::Null => String::new(),
        Value::Bool(b) => {
            if *b {
                "true".to_owned()
            } else {
                "false".to_owned()
            }
        },
        Value::Number(n) => n.clone(),
        Value::Str(s) => s.clone(),
        Value::Array(_) => String::new(),
        Value::Object(_) => String::new(),
    }
}

/// The first binding of `key` among an object's fields, if any.
pub open spec fn obj_get_from(entries: Seq<(String, Value)>, key: Seq<char>, i: int) -> Option<Value>
    decreases entries.len() - i,
{
    if i < 0 || i >= entries.len() {
        None
    } else if entries[i].0@ == key {
        Some(entries[i].1)
    } else {
        obj_get_from(entries, key, i + 1)
    }
}

/// The value bound to `key` in an object's field list (first binding wins).
pub open spec fn obj_get(entries: Seq<(String, Value)>, key: Seq<char>) -> Option<Value> {
    obj_get_from(entries, key, 0)
}

/// Looks `key` up among an object's fields (first binding wins).
pub fn obj_lookup<'a>(entries: &'a Vec<(String, Value)>, key: &str) -> (r: Option<&'a Value>)
    ensures
        match r {
            Some(v) => obj_get(entries@, key@) == Some(*v),
            None => obj_get(entries@, key@) is None,
        },
{
    let n = entries.len();
    let mut i: usize = 0;
    while i < n
        invariant
            n == entries.len(),
            i <= n,
            obj_get(entries@, key@) == obj_get_from(entries@, key@, i as int),
        decreases n - i,
    {
        if crate::strings::str_eq(entries[i].0.as_str(), key) {
            return Some(&entries[i].1);
        }
        i = i + 1;
    }
    None
}

/// Whether a value is a scalar.
pub fn is_scalar_value(v: &Value) -> (r: bool)
    ensures
        r == is_scalar(*v),
{
    match v {
        Value::Null => true,
        Value::Bool(_) => true,
        Value::Number(_) => true,
        Value::Str(_) => true,
        Value::Array(_) => false,
        Value::Object(_) => false,
    }
}

} // verus!
