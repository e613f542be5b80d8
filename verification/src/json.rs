//! JSON documents as the readers of contract artifacts and corpus files see
//! them, with the lookups those readers make.
use vstd::prelude::*;
use crate::text::str_eq;

verus! {

/// A JSON value together with its compact text (the way `serde_json`
/// writes it), which some readers keep verbatim.
#[derive(Debug)]
pub struct Json {
    pub value: JsonValue,
    pub text: String,
}

/// The shape of a JSON value. Object members keep the order of the
/// document; a number records its value when it is an integer in `u64`.
#[derive(Debug)]
pub enum JsonValue {
    Null,
    Bool(bool),
    Number(Option<u64>),
    Str(String),
    Array(Vec<Json>),
    Object(Vec<(String, Json)>),
}

/// The first member of `fields` named `key`.
pub open spec fn obj_lookup(fields: Seq<(String, Json)>, key: Seq<char>) -> Option<Json>
    decreases fields.len(),
{
    if fields.len() == 0 {
        None
    } else if fields[0].0@ == key {
        Some(fields[0].1)
    } else {
        obj_lookup(fields.drop_first(), key)
    }
}

/// The member `key` of `v`, when `v` is an object that has one.
pub open spec fn spec_get(v: Json, key: Seq<char>) -> Option<Json> {
    match v.value {
        JsonValue::Object(fields) => obj_lookup(fields@, key),
        _ => None,
    }
}

/// The characters of `v`, when it is a string.
pub open spec fn spec_as_str(v: Json) -> Option<Seq<char>> {
    match v.value {
        JsonValue::Str(s) => Some(s@),
        _ => None,
    }
}

/// The elements of `v`, when it is an array.
pub open spec fn spec_as_array(v: Json) -> Option<Seq<Json>> {
    match v.value {
        JsonValue::Array(a) => Some(a@),
        _ => None,
    }
}

/// The members of `v`, when it is an object.
pub open spec fn spec_as_object(v: Json) -> Option<Seq<(String, Json)>> {
    match v.value {
        JsonValue::Object(f) => Some(f@),
        _ => None,
    }
}

/// The value of `v`, when it is an integer that fits in `u64`.
pub open spec fn spec_as_u64(v: Json) -> Option<u64> {
    match v.value {
        JsonValue::Number(n) => n,
        _ => None,
    }
}

/// The string member `key` of an object's `fields`, when it is a string.
pub open spec fn obj_get_str(fields: Seq<(String, Json)>, key: Seq<char>) -> Option<Seq<char>> {
    match obj_lookup(fields, key) {
        Some(m) => spec_as_str(m),
        None => None,
    }
}

/// The array member `key` of an object's `fields`, when it is an array.
pub open spec fn obj_get_array(fields: Seq<(String, Json)>, key: Seq<char>) -> Option<Seq<Json>> {
    match obj_lookup(fields, key) {
        Some(m) => spec_as_array(m),
        None => None,
    }
}

/// A member found by name is one of the members.
pub proof fn lemma_lookup_is_member(fields: Seq<(String, Json)>, key: Seq<char>)
    ensures
        obj_lookup(fields, key) matches Some(m) ==> exists|k: int|
            0 <= k < fields.len() && #[trigger] fields[k] == (fields[k].0, m),
    decreases fields.len(),
{
    if fields.len() > 0 && fields[0].0@ != key {
        lemma_lookup_is_member(fields.drop_first(), key);
        if let Some(m) = obj_lookup(fields, key) {
            let k = choose|k: int| 0 <= k < fields.drop_first().len() && #[trigger] fields.drop_first()[k] == (fields.drop_first()[k].0, m);
            assert(fields[k + 1] == (fields[k + 1].0, m));
        }
    } else if fields.len() > 0 {
        assert(fields[0] == (fields[0].0, fields[0].1));
    }
}

/// The string member `key` of `v`, when there is one and it is a string.
pub open spec fn spec_get_str(v: Json, key: Seq<char>) -> Option<Seq<char>> {
    match spec_get(v, key) {
        Some(m) => spec_as_str(m),
        None => None,
    }
}

/// Looks up the first member of `fields` named `key`.
pub fn lookup<'a>(fields: &'a Vec<(String, Json)>, key: &str) -> (r: Option<&'a Json>)
    ensures
        match r {
            None => obj_lookup(fields@, key@) is None,
            Some(m) => obj_lookup(fields@, key@) == Some(*m),
        },
{
    let mut i: usize = 0;
    assert(fields@.skip(0) =~= fields@);
    while i < fields.len()
        invariant
            i <= fields.len(),
            obj_lookup(fields@, key@) == obj_lookup(fields@.skip(i as int), key@),
        decreases fields.len() - i,
    {
        proof {
            assert(fields@.skip(i as int).drop_first() =~= fields@.skip(i + 1));
        }
        if str_eq(fields[i].0.as_str(), key) {
            return Some(&fields[i].1);
        }
        i += 1;
    }
    None
}

/// The member `key` of `v`, when `v` is an object that has one.
pub fn get<'a>(v: &'a Json, key: &str) -> (r: Option<&'a Json>)
    ensures
        match r {
            None => spec_get(*v, key@) is None,
            Some(m) => spec_get(*v, key@) == Some(*m),
        },
{
    match &v.value {
        JsonValue::Object(fields) => lookup(fields, key),
        _ => None,
    }
}

/// The string `v` holds, when it is one.
pub fn as_str(v: &Json) -> (r: Option<&String>)
    ensures
        match r {
            None => spec_as_str(*v) is None,
            Some(s) => spec_as_str(*v) == Some(s@),
        },
{
    match &v.value {
        JsonValue::Str(s) => Some(s),
        _ => None,
    }
}

/// The elements of `v`, when it is an array.
pub fn as_array(v: &Json) -> (r: Option<&Vec<Json>>)
    ensures
        match r {
            None => spec_as_array(*v) is None,
            Some(a) => spec_as_array(*v) == Some(a@),
        },
{
    match &v.value {
        JsonValue::Array(a) => Some(a),
        _ => None,
    }
}

/// The members of `v`, when it is an object.
pub fn as_object(v: &Json) -> (r: Option<&Vec<(String, Json)>>)
    ensures
        match r {
            None => spec_as_object(*v) is None,
            Some(f) => spec_as_object(*v) == Some(f@),
        },
{
    match &v.value {
        JsonValue::Object(f) => Some(f),
        _ => None,
    }
}

/// The value of `v`, when it is an integer that fits in `u64`.
pub fn as_u64(v: &Json) -> (r: Option<u64>)
    ensures
        r == spec_as_u64(*v),
{
    match &v.value {
        JsonValue::Number(n) => *n,
        _ => None,
    }
}

/// Why a JSON document could not be read.
#[derive(Debug, Clone, Copy, PartialEq, Eq, Structural)]
pub enum ReadError {
    /// The text is not a JSON document.
    MalformedJson,
    /// The document lacks a member the reader needs, or holds one of
    /// another shape.
    Unreadable,
}

impl ReadError {
    /// The message of the error.
    pub fn message(&self) -> (r: String)
        ensures
            *self == ReadError::MalformedJson ==> r@ == "JSON was not well-formatted"@,
            *self == ReadError::Unreadable ==> r@ == "Could not read the document"@,
    {
        match self {
            ReadError::MalformedJson => String::from_str("JSON was not well-formatted"),
            ReadError::Unreadable => String::from_str("Could not read the document"),
        }
    }
}

#[verifier::external_type_specification]
#[verifier::external_body]
pub struct ExJsonValue(serde_json::Value);

/// The document the JSON text `text` holds, as `serde_json` reads it; `None`
/// when the text is not a JSON document.
pub uninterp spec fn json_of_text(text: Seq<char>) -> Option<Json>;

/// A `serde_json::Value` in the library's representation: its shape, with
/// the compact text `serde_json` writes for each value.
#[verifier::external_body]
fn json_from_value(v: &serde_json::Value) -> Json {
    let value = match v {
        serde_json::Value::Null => JsonValue::Null,
        serde_json::Value::Bool(b) => JsonValue::Bool(*b),
        serde_json::Value::Number(n) => JsonValue::Number(n.as_u64()),
        serde_json::Value::String(s) => JsonValue::Str(s.clone()),
        serde_json::Value::Array(a) => JsonValue::Array(a.iter().map(json_from_value).collect()),
        serde_json::Value::Object(m) => JsonValue::Object(m.iter().map(|(k, x)| (k.clone(), json_from_value(x))).collect()),
    };
    Json { value, text: v.to_string() }
}

/// `serde_json::from_str` parses the text into a `serde_json::Value`; the
/// result, converted to the library's representation, is a function of the
/// text alone.
#[verifier::external_body]
pub(crate) fn parse_json_text(text: &str) -> (r: Option<Json>)
    ensures
        r == json_of_text(text@),
{
    serde_json::from_str::<serde_json::Value>(text).ok().map(|v| json_from_value(&v))
}

} // verus!
