use vstd::prelude::*;

verus! {

/// What the parser reads of a JSON value: objects with their entries in
/// order, arrays, strings, and every other value alike.
#[derive(Debug)]
pub enum Json {
    Object(Vec<(String, Json)>),
    Array(Vec<Json>),
    Str(String),
    Other,
}

#[verifier::external_type_specification]
#[verifier::external_body]
pub struct ExValue(serde_json::Value);

/// One level of a decoded value, its children still undecoded.
enum Level {
    Object(Vec<(String, serde_json::Value)>),
    Array(Vec<serde_json::Value>),
    Str(String),
    Other,
}

/// Relies on the variants of `serde_json::Value`, and on `Map::into_iter`
/// to hand over an object's entries.
#[verifier::external_body]
fn open_level(v: serde_json::Value) -> (r: Level) {
    match v {
        serde_json::Value::Object(m) => Level::Object(m.into_iter().collect()),
        serde_json::Value::Array(a) => Level::Array(a),
        serde_json::Value::String(s) => Level::Str(s),
        _ => Level::Other,
    }
}

/// The deepest nesting of arrays and objects that serde_json decodes.
pub const MAX_NESTING: u32 = 128;

/// The value that a JSON text holds, as `Json`, with each object's entries
/// in the order that serde_json's map keeps them; nothing where the text is
/// not JSON.
pub uninterp spec fn json_of(text: Seq<char>) -> Option<Json>;

/// Reads a decoded value down to `levels` levels below it; what lies deeper
/// is read as `Other`, and so is every value that is not an object, an array
/// or a string.
fn read_value(v: serde_json::Value, levels: u32) -> (r: Json)
    decreases levels,
{
    match open_level(v) {
        Level::Object(entries) => {
            if levels == 0 {
                return Json::Other;
            }
            let below = levels - 1;
            let mut rest = entries;
            let mut reversed: Vec<(String, serde_json::Value)> = Vec::new();
            while rest.len() > 0
                decreases rest@.len(),
            {
                let e = rest.pop().unwrap();
                reversed.push(e);
            }
            let mut out: Vec<(String, Json)> = Vec::new();
            while reversed.len() > 0
                invariant
                    below < levels,
                decreases reversed@.len(),
            {
                let (k, child) = reversed.pop().unwrap();
                out.push((k, read_value(child, below)));
            }
            Json::Object(out)
        },
        Level::Array(items) => {
            if levels == 0 {
                return Json::Other;
            }
            let below = levels - 1;
            let mut rest = items;
            let mut reversed: Vec<serde_json::Value> = Vec::new();
            while rest.len() > 0
                decreases rest@.len(),
            {
                let e = rest.pop().unwrap();
                reversed.push(e);
            }
            let mut out: Vec<Json> = Vec::new();
            while reversed.len() > 0
                invariant
                    below < levels,
                decreases reversed@.len(),
            {
                let child = reversed.pop().unwrap();
                out.push(read_value(child, below));
            }
            Json::Array(out)
        },
        Level::Str(s) => Json::Str(s),
        Level::Other => Json::Other,
    }
}

/// Relies on `serde_json::from_str` for the value that a text holds, or the
/// decoder's message. The value is read whole: serde_json refuses nesting
/// deeper than `MAX_NESTING`.
#[verifier::external_body]
fn decode_text(text: &str) -> (r: Result<Json, String>)
    ensures
        r is Ok <==> json_of(text@) is Some,
        r is Ok ==> r->Ok_0 == json_of(text@)->Some_0,
{
    match serde_json::from_str::<serde_json::Value>(text) {
        Ok(v) => Ok(read_value(v, MAX_NESTING)),
        Err(e) => Err(e.to_string()),
    }
}

/// Decodes a JSON text, or gives the decoder's message.
pub fn decode(text: &str) -> (r: Result<Json, String>)
    ensures
        r is Ok <==> json_of(text@) is Some,
        r is Ok ==> r->Ok_0 == json_of(text@)->Some_0,
{
    decode_text(text)
}

} // verus!
