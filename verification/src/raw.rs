use vstd::prelude::*;
use crate::json::Json;
use crate::json::SpecJson;
use crate::json::spec_objs_unique;

verus! {

/// What serde_json's parser yields for a text: `Some` of the document's value
/// when the text is well-formed JSON, `None` otherwise. Parsing is a function
/// of the text alone.
pub uninterp spec fn json_of(t: Seq<char>) -> Option<SpecJson>;

/// What serde_json's serializer prints for a value. Printing is a function of
/// the value alone.
pub uninterp spec fn text_of(j: SpecJson) -> Seq<char>;

/// Where in a malformed document serde_json stopped.
#[derive(Debug, Clone, Copy, PartialEq, Eq, Structural)]
pub struct TextPosition {
    pub line: usize,
    pub column: usize,
}

#[verifier::external_type_specification]
#[verifier::external_body]
pub struct ExSerdeValue(serde_json::Value);

/// Converts one parsed serde_json node into the library's value model, node
/// for node: a number becomes its text, an object its entry list. Called only
/// from `parse_json_text`, whose contract covers the composition.
/// Relies on the shape of serde_json::Value; the keys of a serde_json object
/// are pairwise distinct, so every object in the result is too.
#[verifier::external_body]
fn value_to_json(v: &serde_json::Value) -> (r: Json)
    ensures
        spec_objs_unique(r@),
{
    match v {
        serde_json::Value::Null => Json::Null,
        serde_json::Value::Bool(b) => Json::Bool(*b),
        serde_json::Value::Number(n) => Json::Num(n.to_string()),
        serde_json::Value::String(s) => Json::Str(s.clone()),
        serde_json::Value::Array(a) => Json::Arr(a.iter().map(value_to_json).collect()),
        serde_json::Value::Object(o) => Json::Obj(
            o.iter().map(|(k, x)| (k.clone(), value_to_json(x))).collect(),
        ),
    }
}

/// Converts one node of the library's value model back into a serde_json
/// node. Called only from `json_to_text`. A `Num` whose text serde_json does
/// not accept as a number becomes `null`; the texts the library's parser and
/// renderer produce are always accepted.
/// Relies on serde_json::Number's deserialization from a number text.
#[verifier::external_body]
fn json_to_value(j: &Json) -> serde_json::Value {
    match j {
        Json::Null => serde_json::Value::Null,
        Json::Bool(b) => serde_json::Value::Bool(*b),
        Json::Num(t) => match serde_json::from_str::<serde_json::Number>(t) {
            Ok(n) => serde_json::Value::Number(n),
            Err(_) => serde_json::Value::Null,
        },
        Json::Str(s) => serde_json::Value::String(s.clone()),
        Json::Arr(items) => serde_json::Value::Array(items.iter().map(json_to_value).collect()),
        Json::Obj(entries) => serde_json::Value::Object(
            entries.iter().map(|(k, x)| (k.clone(), json_to_value(x))).collect(),
        ),
    }
}

/// Parses a JSON document. Well-formed text yields its value, named
/// `json_of`; malformed text is refused with serde_json's position.
/// Relies on serde_json::from_str for serde_json::Value: it accepts exactly
/// the well-formed documents, deterministically, and reports line and column
/// for the rest.
#[verifier::external_body]
pub fn parse_json_text(t: &str) -> (r: Result<Json, TextPosition>)
    ensures
        r is Ok <==> json_of(t@) is Some,
        r matches Ok(v) ==> json_of(t@) == Some(v@) && spec_objs_unique(v@),
{
    match serde_json::from_str::<serde_json::Value>(t) {
        Ok(v) => Ok(value_to_json(&v)),
        Err(e) => Err(TextPosition { line: e.line(), column: e.column() }),
    }
}

/// Prints a document on one line. The result is the value's, named
/// `text_of`.
/// Relies on serde_json::to_string for serde_json::Value, which prints any
/// value tree deterministically.
#[verifier::external_body]
pub fn json_to_text(j: &Json) -> (r: String)
    ensures
        r@ == text_of(j@),
{
    let v = json_to_value(j);
    match serde_json::to_string(&v) {
        Ok(s) => s,
        Err(_) => String::new(),
    }
}

} // verus!
