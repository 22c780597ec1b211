//! Trusted declarations for the JSON handling that the record decoders rely
//! on; everything here is serde_json's. Each named result is a function of
//! the input text alone, so the decoders' contracts can fix the content of
//! every decoded field.

use vstd::prelude::*;

verus! {

/// The rendering of the parse error when `serde_json::from_str::<Value>`
/// rejects `s`, `None` when it accepts it; a function of the text alone.
pub uninterp spec fn json_value_err(s: Seq<char>) -> Option<Seq<char>>;

/// Whether `serde_json::from_str::<Value>` accepts `s` as a JSON document.
pub open spec fn json_value_parses(s: Seq<char>) -> bool {
    json_value_err(s) is None
}

/// Relies on `serde_json::from_str::<Value>`: parsing succeeds exactly on
/// well-formed JSON text and fails with `serde_json::Error`, rendered here
/// through its `Display` text.
#[verifier::external_body]
pub(crate) fn check_json_value(s: &str) -> (r: Result<(), String>)
    ensures
        r is Ok <==> json_value_err(s@) is None,
        r is Err ==> r->Err_0@ == json_value_err(s@)->0,
{
    match serde_json::from_str::<serde_json::Value>(s) {
        Ok(_) => Ok(()),
        Err(e) => Err(e.to_string()),
    }
}

/// The string under `key` when `s` parses as a JSON object holding a string
/// there, `None` otherwise; a function of the text and the key alone.
pub uninterp spec fn json_str_field(s: Seq<char>, key: Seq<char>) -> Option<Seq<char>>;

/// Relies on `serde_json::from_str::<Value>`, `Value::get` with a string
/// index, and `Value::as_str`: the text under `key` when `s` parses as an
/// object whose value there is a JSON string; owned through `str::to_owned`.
#[verifier::external_body]
pub(crate) fn parse_str_field(s: &str, key: &str) -> (r: Option<String>)
    ensures
        r.deep_view() == json_str_field(s@, key@),
{
    match serde_json::from_str::<serde_json::Value>(s) {
        Ok(v) => v.get(key).and_then(|x| x.as_str()).map(str::to_owned),
        Err(_) => None,
    }
}

/// What `serde_json::from_str::<Vec<Value>>` makes of `s`: on a well-formed
/// JSON array, its elements in order, each given by its serialized text; on
/// rejected text, the parse error's rendering. A function of the text alone.
pub uninterp spec fn json_array_model(s: Seq<char>) -> Result<Seq<Seq<char>>, Seq<char>>;

/// Relies on `serde_json::from_str::<Vec<Value>>` and `serde_json::to_string`:
/// parsing succeeds exactly on a well-formed JSON array and yields its
/// elements in order; serializing a `Value` cannot fail (its map keys are
/// always strings); the parse error is rendered through its `Display` text.
#[verifier::external_body]
pub(crate) fn parse_json_array_texts(s: &str) -> (r: Result<Vec<String>, String>)
    ensures
        r is Ok <==> json_array_model(s@) is Ok,
        r is Ok ==> r->Ok_0.deep_view() == json_array_model(s@)->Ok_0,
        r is Err ==> r->Err_0@ == json_array_model(s@)->Err_0,
{
    match serde_json::from_str::<Vec<serde_json::Value>>(s) {
        Ok(vals) => match vals.iter().map(serde_json::to_string).collect::<Result<Vec<_>, _>>() {
            Ok(texts) => Ok(texts),
            Err(e) => Err(e.to_string()),
        },
        Err(e) => Err(e.to_string()),
    }
}

} // verus!
