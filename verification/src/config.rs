//! The configuration file, read and written through serde_json: a JSON
//! object whose fields are unsigned integers.

use vstd::prelude::*;

verus! {

/// The field under `key` that serde_json reads out of a configuration text:
/// the number stored there when the text parses as a JSON object and the
/// value is an unsigned integer, and nothing otherwise.
pub uninterp spec fn config_field_spec(text: Seq<char>, key: Seq<char>) -> Option<u64>;

/// The pretty-printed JSON object serde_json writes for `{key: value}`.
pub uninterp spec fn config_text_spec(key: Seq<char>, value: u64) -> Seq<char>;

/// Calls `serde_json::from_str` into a `serde_json::Value`, then
/// `Value::get(key)` and `Value::as_u64`. Claimed: the answer is a function
/// of the text and the key alone.
#[verifier::external_body]
pub(crate) fn config_field(text: &str, key: &str) -> (field: Option<u64>)
    ensures
        field == config_field_spec(text@, key@),
{
    serde_json::from_str::<serde_json::Value>(text)
        .ok()
        .and_then(|v| v.get(key).and_then(|f| f.as_u64()))
}

/// Calls `serde_json::to_string_pretty` on the object `{key: value}`.
/// Claimed: the text is a function of the key and the number alone, and
/// reading the field under `key` back out of it with `serde_json::from_str`
/// gives the number that was written.
#[verifier::external_body]
pub(crate) fn config_text(key: &str, value: u64) -> (text: String)
    ensures
        text@ == config_text_spec(key@, value),
        config_field_spec(text@, key@) == Some(value),
{
    let mut object = serde_json::Map::new();
    object.insert(key.to_string(), serde_json::Value::from(value));
    serde_json::to_string_pretty(&serde_json::Value::Object(object)).unwrap_or_default()
}

} // verus!
