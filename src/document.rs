use vstd::prelude::*;

use crate::error::DecodeError;
use crate::json::{agree, JsonValue};

verus! {

/// serde_json's parsed value, carried through opaquely.
#[verifier::external_type_specification]
#[verifier::external_body]
pub struct ExValue(serde_json::Value);

/// serde_json's object map, carried through opaquely.
#[verifier::external_type_specification]
#[verifier::external_body]
#[verifier::reject_recursive_types(K)]
#[verifier::reject_recursive_types(V)]
pub struct ExMap<K, V>(serde_json::Map<K, V>);

/// The document that serde_json reads from a byte string; `None` where the
/// bytes are no JSON text.
pub uninterp spec fn document_of(b: Seq<u8>) -> Option<JsonValue>;

/// What a parsed serde_json value holds.
pub uninterp spec fn value_model(v: serde_json::Value) -> JsonValue;

/// The members of a serde_json object, in the order in which it hands
/// them out.
pub uninterp spec fn object_members(m: serde_json::Map<String, serde_json::Value>) -> Seq<(String, JsonValue)>;

/// How deeply serde_json lets containers nest, plus one level for the
/// innermost value.
pub const NESTING_LIMIT: usize = 128;

/// Relies on serde_json::from_slice into a `serde_json::Value`: the result
/// depends on the bytes alone, and its containers nest fewer than 128 deep.
#[verifier::external_body]
fn parse_value(b: &[u8]) -> (r: Option<serde_json::Value>)
    ensures
        r is Some <==> document_of(b@) is Some,
        r matches Some(v) ==> value_model(v) == document_of(b@)->Some_0,
        r matches Some(v) ==> agree(value_model(v), value_model(v), NESTING_LIMIT as nat),
{
    serde_json::from_slice::<serde_json::Value>(b).ok()
}

/// Relies on serde_json::Map::iter, to hand out the members of an object.
#[verifier::external_body]
fn members_of(m: &serde_json::Map<String, serde_json::Value>) -> (r: Vec<(&String, &serde_json::Value)>)
    ensures
        r@.len() == object_members(*m).len(),
        forall|i: int|
            0 <= i < r@.len() ==> (*(#[trigger] r@[i]).0)@ == object_members(*m)[i].0@ && value_model(*r@[i].1)
                == object_members(*m)[i].1,
{
    m.iter().collect()
}

/// Relies on serde_json::Value::is_null, to tell a null apart.
pub assume_specification[ serde_json::Value::is_null ](v: &serde_json::Value) -> (r: bool)
    ensures
        r == value_model(*v) is Null,
;

/// Relies on serde_json::Value::as_bool, to read a boolean.
pub assume_specification[ serde_json::Value::as_bool ](v: &serde_json::Value) -> (r: Option<bool>)
    ensures
        r == match value_model(*v) {
            JsonValue::Bool(b) => Some(b),
            _ => None::<bool>,
        },
;

/// Relies on serde_json::Value::as_u64, to read a non-negative integer.
pub assume_specification[ serde_json::Value::as_u64 ](v: &serde_json::Value) -> (r: Option<u64>)
    ensures
        r == match value_model(*v) {
            JsonValue::Int(n) => if 0 <= n <= u64::MAX {
                Some(n as u64)
            } else {
                None::<u64>
            },
            _ => None::<u64>,
        },
;

/// Relies on serde_json::Value::as_i64, to read a negative integer; an
/// integer is held as an `i64` or a `u64`.
pub assume_specification[ serde_json::Value::as_i64 ](v: &serde_json::Value) -> (r: Option<i64>)
    ensures
        r == match value_model(*v) {
            JsonValue::Int(n) => if i64::MIN <= n <= i64::MAX {
                Some(n as i64)
            } else {
                None::<i64>
            },
            _ => None::<i64>,
        },
        r is None && value_model(*v) is Int ==> i64::MAX < value_model(*v)->Int_0 <= u64::MAX,
;

/// Relies on serde_json::Value::is_number, to tell a number apart.
pub assume_specification[ serde_json::Value::is_number ](v: &serde_json::Value) -> (r: bool)
    ensures
        r == (value_model(*v) is Int || value_model(*v) is Fraction),
;

/// Relies on serde_json::Value::as_str, to read a string.
pub assume_specification[ serde_json::Value::as_str ](v: &serde_json::Value) -> (r: Option<&str>)
    ensures
        r is Some <==> value_model(*v) is Str,
        r matches Some(s) ==> s@ == (value_model(*v)->Str_0)@,
;

/// Relies on serde_json::Value::as_array, to reach the elements of an array.
pub assume_specification[ serde_json::Value::as_array ](v: &serde_json::Value) -> (r: Option<&Vec<serde_json::Value>>)
    ensures
        r is Some <==> value_model(*v) is Array,
        r matches Some(items) ==> items@.len() == (value_model(*v)->Array_0)@.len() && forall|i: int|
            0 <= i < items@.len() ==> value_model(#[trigger] items@[i]) == (value_model(*v)->Array_0)@[i],
;

/// Relies on serde_json::Value::as_object, to reach the members of an object.
pub assume_specification[ serde_json::Value::as_object ](v: &serde_json::Value) -> (r: Option<&serde_json::Map<String, serde_json::Value>>)
    ensures
        r is Some <==> value_model(*v) is Object,
        r matches Some(m) ==> object_members(*m) == (value_model(*v)->Object_0)@,
;

/// Builds the model of a parsed value, which agrees with what the value
/// holds; `None` only where it nests deeper than `depth` levels.
fn model_of(v: &serde_json::Value, depth: usize) -> (r: Option<JsonValue>)
    ensures
        r matches Some(m) ==> agree(m, value_model(*v), depth as nat),
        agree(value_model(*v), value_model(*v), depth as nat) ==> r is Some,
    decreases depth,
{
    if depth == 0 {
        return None;
    }
    let inner = depth - 1;
    let ghost model = value_model(*v);
    if v.is_null() {
        return Some(JsonValue::Null);
    }
    match v.as_bool() {
        Some(b) => return Some(JsonValue::Bool(b)),
        None => {},
    }
    match v.as_u64() {
        Some(n) => return Some(JsonValue::Int(n as i128)),
        None => {},
    }
    match v.as_i64() {
        Some(n) => return Some(JsonValue::Int(n as i128)),
        None => {},
    }
    if v.is_number() {
        return Some(JsonValue::Fraction);
    }
    match v.as_str() {
        Some(s) => return Some(JsonValue::Str(s.to_owned())),
        None => {},
    }
    match v.as_array() {
        Some(items) => {
            let ghost wanted = model->Array_0@;
            let mut out: Vec<JsonValue> = Vec::new();
            let mut i: usize = 0;
            while i < items.len()
                invariant
                    inner < depth,
                    inner == depth - 1,
                    model == value_model(*v),
                    model is Array,
                    wanted == model->Array_0@,
                    items@.len() == wanted.len(),
                    forall|j: int| 0 <= j < items@.len() ==> value_model(#[trigger] items@[j]) == wanted[j],
                    0 <= i <= items@.len(),
                    out@.len() == i,
                    forall|j: int| 0 <= j < i ==> agree(#[trigger] out@[j], wanted[j], inner as nat),
                    agree(model, model, depth as nat) ==> forall|j: int|
                        0 <= j < wanted.len() ==> agree(#[trigger] wanted[j], wanted[j], inner as nat),
                decreases items.len() - i,
            {
                match model_of(&items[i], inner) {
                    Some(m) => out.push(m),
                    None => return None,
                }
                i = i + 1;
            }
            let r = JsonValue::Array(out);
            assert(agree(r, model, depth as nat));
            return Some(r);
        },
        None => {},
    }
    match v.as_object() {
        Some(obj) => {
            let ghost wanted = model->Object_0@;
            let members = members_of(obj);
            let mut out: Vec<(String, JsonValue)> = Vec::new();
            let mut i: usize = 0;
            while i < members.len()
                invariant
                    inner < depth,
                    inner == depth - 1,
                    model == value_model(*v),
                    model is Object,
                    wanted == model->Object_0@,
                    members@.len() == wanted.len(),
                    forall|j: int|
                        0 <= j < members@.len() ==> (*(#[trigger] members@[j]).0)@ == wanted[j].0@
                            && value_model(*members@[j].1) == wanted[j].1,
                    0 <= i <= members@.len(),
                    out@.len() == i,
                    forall|j: int|
                        0 <= j < i ==> (#[trigger] out@[j]).0@ == wanted[j].0@ && agree(out@[j].1, wanted[j].1, inner as nat),
                    agree(model, model, depth as nat) ==> forall|j: int|
                        0 <= j < wanted.len() ==> agree((#[trigger] wanted[j]).1, wanted[j].1, inner as nat),
                decreases members.len() - i,
            {
                let (k, item) = members[i];
                match model_of(item, inner) {
                    Some(m) => out.push((k.clone(), m)),
                    None => return None,
                }
                i = i + 1;
            }
            let r = JsonValue::Object(out);
            assert(agree(r, model, depth as nat));
            Some(r)
        },
        None => None,
    }
}

impl JsonValue {
    /// Parses one JSON text into a value that agrees with the document it
    /// holds. Bytes that are no JSON text give `DecodeError::Syntax`.
    pub fn parse(b: &[u8]) -> (r: Result<JsonValue, DecodeError>)
        ensures
            document_of(b@) is None ==> r == Err::<JsonValue, DecodeError>(DecodeError::Syntax),
            document_of(b@) matches Some(d) ==> r matches Ok(m) && agree(m, d, NESTING_LIMIT as nat),
    {
        match parse_value(b) {
            Some(v) => match model_of(&v, NESTING_LIMIT) {
                Some(m) => Ok(m),
                None => Err(DecodeError::Syntax),
            },
            None => Err(DecodeError::Syntax),
        }
    }
}

} // verus!
