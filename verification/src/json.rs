//! Reading single fields of JSON texts with `serde_json`.

use vstd::prelude::*;

verus! {

/// What a JSON text says under a key, as `serde_json` reads it: nothing
/// when the text is not JSON, and otherwise the string stored under the
/// key, if a string is stored there.
pub uninterp spec fn json_str_field(body: Seq<u8>, key: Seq<char>) -> Option<Option<Seq<char>>>;

/// Reads the string under `key` in a JSON text with `serde_json`: the text
/// is parsed by `serde_json::from_slice` into a `serde_json::Value`, then
/// read with `Value::get` and `Value::as_str`. The contract says only that
/// the result is the one the name `json_str_field` gives for these bytes
/// and key; what serde_json accepts as JSON is not stated.
#[verifier::external_body]
pub(crate) fn read_json_str_field(body: &[u8], key: &str) -> (r: Option<Option<String>>)
    ensures
        json_str_field(body@, key@) == match r {
            None => None,
            Some(None) => Some(None),
            Some(Some(s)) => Some(Some(s@)),
        },
{
    match serde_json::from_slice::<serde_json::Value>(body) {
        Ok(v) => Some(v.get(key).and_then(|x| x.as_str()).map(|s| s.to_string())),
        Err(_) => None,
    }
}

/// What a JSON text says under a key, as `serde_json` reads it: nothing when
/// the text is not JSON, and otherwise the boolean stored under the key, if
/// a boolean is stored there.
pub uninterp spec fn json_bool_field(text: Seq<char>, key: Seq<char>) -> Option<Option<bool>>;

/// Reads the boolean under `key` in a JSON text with `serde_json`: the text
/// is parsed by `serde_json::from_str` into a `serde_json::Value`, then read
/// with `Value::get` and `Value::as_bool`. The contract says only that the
/// result is the one the name `json_bool_field` gives for this text and key.
#[verifier::external_body]
pub(crate) fn read_json_bool_field(text: &str, key: &str) -> (r: Option<Option<bool>>)
    ensures
        r == json_bool_field(text@, key@),
{
    match serde_json::from_str::<serde_json::Value>(text) {
        Ok(v) => Some(v.get(key).and_then(|x| x.as_bool())),
        Err(_) => None,
    }
}

} // verus!
