use vstd::prelude::*;

verus! {

/// The text of the string field `key` of the JSON object that `body` holds,
/// as `serde_json` reads it; `None` where `body` is no JSON object or the
/// field is absent or not a string.
pub uninterp spec fn json_field_of(body: Seq<u8>, key: Seq<char>) -> Option<Seq<char>>;

/// The view of an optional string.
pub open spec fn opt_chars(s: Option<String>) -> Option<Seq<char>> {
    match s {
        Some(t) => Some(t@),
        None => None,
    }
}

/// Relies on `serde_json::from_slice` into a `serde_json::Value`, then
/// `Value::get` and `Value::as_str`: the field's text depends on the body
/// and the key alone.
#[verifier::external_body]
pub(crate) fn json_field(body: &[u8], key: &str) -> (r: Option<String>)
    ensures
        opt_chars(r) == json_field_of(body@, key@),
{
    let value: serde_json::Value = serde_json::from_slice(body).ok()?;
    value.get(key)?.as_str().map(str::to_owned)
}

} // verus!
