//! A plain-value model of the JSON payloads the pipeline reads.
//!
//! Parsed documents are carried as `JsonNode` trees: strings keep their
//! contents, numbers and booleans keep their JSON rendering, and arrays and
//! objects additionally carry their own serialized text, so that a complex
//! value can be handed on as a string without re-serializing.

use vstd::prelude::*;

verus! {

/// A JSON value as the pipeline sees it.
#[derive(Debug)]
pub enum JsonNode {
    /// The JSON null.
    Null,
    /// A number or boolean, as its JSON text.
    Scalar(String),
    /// A string, with its (unescaped) contents.
    Text(String),
    /// An array: its elements, and the serialized text of the whole array.
    Arr(Vec<JsonNode>, String),
    /// An object: its fields in document order, and the serialized text of
    /// the whole object.
    Obj(Vec<(String, JsonNode)>, String),
}

#[verifier::external_type_specification]
#[verifier::external_body]
pub struct ExValue(serde_json::Value);

/// Converts a parsed JSON value into the crate's plain-value model.
///
/// Relies on `serde_json::to_string` for the serialized text carried on
/// arrays and objects; the rest of the conversion moves the document's own
/// contents over, variant by variant.
#[verifier::external_body]
fn node_of(v: &serde_json::Value) -> JsonNode {
    match v {
        serde_json::Value::Null => JsonNode::Null,
        serde_json::Value::String(s) => JsonNode::Text(s.clone()),
        serde_json::Value::Array(a) => JsonNode::Arr(
            a.iter().map(node_of).collect(),
            serde_json::to_string(v).unwrap_or_default(),
        ),
        serde_json::Value::Object(m) => JsonNode::Obj(
            m.iter().map(|(k, x)| (k.clone(), node_of(x))).collect(),
            serde_json::to_string(v).unwrap_or_default(),
        ),
        _ => JsonNode::Scalar(v.to_string()),
    }
}

/// Parses text as a JSON document, or nothing when the text is not valid
/// JSON.
///
/// Relies on `serde_json::from_str` to decide validity and to build the
/// document.
#[verifier::external_body]
fn parse_value(text: &str) -> Option<serde_json::Value> {
    serde_json::from_str::<serde_json::Value>(text).ok()
}

/// Parses text as JSON into the crate's plain-value model, or nothing when
/// the text is not valid JSON.
pub fn parse_json(text: &str) -> Option<JsonNode> {
    match parse_value(text) {
        Some(v) => Some(node_of(&v)),
        None => None,
    }
}

/// The first field of an object with the given name, if any.
pub open spec fn lookup_field(fs: Seq<(String, JsonNode)>, key: Seq<char>) -> Option<JsonNode>
    decreases fs.len(),
{
    if fs.len() == 0 {
        None
    } else if fs[0].0@ == key {
        Some(fs[0].1)
    } else {
        lookup_field(fs.subrange(1, fs.len() as int), key)
    }
}

/// Looks a field up in an object's field list by name.
pub fn get_field<'a>(fields: &'a Vec<(String, JsonNode)>, key: &str) -> (r: Option<&'a JsonNode>)
    ensures
        match r {
            Some(v) => lookup_field(fields@, key@) == Some(*v),
            None => lookup_field(fields@, key@) is None,
        },
{
    let n = fields.len();
    let mut i: usize = 0;
    proof {
        assert(fields@.subrange(0, n as int) =~= fields@);
    }
    while i < n
        invariant
            n == fields@.len(),
            0 <= i <= n,
            lookup_field(fields@, key@) == lookup_field(
                fields@.subrange(i as int, n as int),
                key@,
            ),
        decreases n - i,
    {
        proof {
            let rem = fields@.subrange(i as int, n as int);
            assert(rem[0] == fields@[i as int]);
            assert(rem.subrange(1, rem.len() as int) =~= fields@.subrange(
                i + 1 as int,
                n as int,
            ));
        }
        if crate::text::str_eq(fields[i].0.as_str(), key) {
            return Some(&fields[i].1);
        }
        i = i + 1;
    }
    proof {
        assert(fields@.subrange(n as int, n as int) =~= Seq::<(String, JsonNode)>::empty());
    }
    None
}

} // verus!
