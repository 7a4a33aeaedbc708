use vstd::prelude::*;

verus! {

broadcast use vstd::std_specs::vec::group_vec_axioms;

/// A JSON document as the schema emitter reads it: the kind of every value,
/// the text of strings, the members of objects in document order and the
/// elements of arrays. The value of a number or a boolean never changes the
/// emitted schema, so numbers keep no value.
#[derive(Debug)]
pub enum JsonValue {
    Null,
    Bool(bool),
    Number,
    Str(String),
    Array(Vec<JsonValue>),
    Object(Vec<(String, JsonValue)>),
}

/// How deeply the schema walk descends below `v`: one level for every
/// object, and one for every array, of which only the first element is
/// visited.
pub open spec fn walk_depth(v: JsonValue) -> nat
    decreases v, 1int, 0int,
{
    match v {
        JsonValue::Array(a) => if a.len() > 0 {
            1 + walk_depth(a[0])
        } else {
            1
        },
        JsonValue::Object(m) => 1 + members_depth(v, 0),
        _ => 0,
    }
}

/// The greatest `walk_depth` among the members of the object `obj` from
/// index `i` on (0 when there are none).
pub open spec fn members_depth(obj: JsonValue, i: int) -> nat
    decreases obj, 0int, if obj is Object && 0 <= i <= obj->Object_0.len() {
        obj->Object_0.len() - i
    } else {
        0
    },
{
    match obj {
        JsonValue::Object(m) => if 0 <= i < m.len() {
            let d = walk_depth(m[i].1);
            let rest = members_depth(obj, i + 1);
            if d > rest {
                d
            } else {
                rest
            }
        } else {
            0
        },
        _ => 0,
    }
}

/// What serde_json reads from a JSON text: `None` where the text is not
/// valid JSON, else the document it denotes.
pub uninterp spec fn parsed_json(s: Seq<char>) -> Option<JsonValue>;

#[verifier::external_type_specification]
#[verifier::external_body]
pub struct ExJsonError(serde_json::Error);

#[verifier::external_type_specification]
#[verifier::external_body]
pub struct ExSerdeValue(serde_json::Value);

/// Moves a serde_json tree into the library's tree, variant for variant;
/// only the parser below uses it.
#[verifier::external_body]
fn from_serde(v: serde_json::Value) -> JsonValue {
    match v {
        serde_json::Value::Null => JsonValue::Null,
        serde_json::Value::Bool(b) => JsonValue::Bool(b),
        serde_json::Value::Number(_) => JsonValue::Number,
        serde_json::Value::String(s) => JsonValue::Str(s),
        serde_json::Value::Array(a) => JsonValue::Array(a.into_iter().map(from_serde).collect()),
        serde_json::Value::Object(m) => JsonValue::Object(
            m.into_iter().map(|(k, x)| (k, from_serde(x))).collect(),
        ),
    }
}

/// Relies on serde_json::from_str into serde_json::Value: the outcome depends
/// on the text alone, and the parser refuses documents that nest more than
/// 127 arrays and objects.
#[verifier::external_body]
pub(crate) fn parse_json(s: &str) -> (r: Result<JsonValue, serde_json::Error>)
    ensures
        match r {
            Ok(v) => parsed_json(s@) == Some(v) && walk_depth(v) <= 128,
            Err(_) => parsed_json(s@) is None,
        },
{
    match serde_json::from_str::<serde_json::Value>(s) {
        Ok(v) => Ok(from_serde(v)),
        Err(e) => Err(e),
    }
}

} // verus!
