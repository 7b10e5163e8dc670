use vstd::prelude::*;

use crate::error::InstallError;

verus! {

/// The string stored under `key` in the JSON object that `text` holds, as
/// `serde_json` reads it; `None` when the text is not JSON, not an object,
/// has no such key, or holds something other than a string there.
pub uninterp spec fn json_string_field(text: Seq<char>, key: Seq<char>) -> Option<Seq<char>>;

/// Relies on `serde_json::from_str` into a `Value`, then `Value::get` and
/// `Value::as_str`: the string field `key` of the object in `text`; the
/// answer depends on the two texts alone.
#[verifier::external_body]
fn string_field(text: &str, key: &str) -> (r: Option<String>)
    ensures
        r is None <==> json_string_field(text@, key@) is None,
        r matches Some(v) ==> json_string_field(text@, key@) == Some(v@),
{
    let value: serde_json::Value = serde_json::from_str(text).ok()?;
    value.get(key)?.as_str().map(str::to_string)
}

/// Reads the string field `key` of a JSON object; anything else is a
/// parse error.
pub fn required_string_field(text: &str, key: &str) -> (r: Result<String, InstallError>)
    ensures
        r is Ok <==> json_string_field(text@, key@) is Some,
        r matches Ok(v) ==> json_string_field(text@, key@) == Some(v@),
        r matches Err(e) ==> e == InstallError::Parse,
{
    match string_field(text, key) {
        Some(v) => Ok(v),
        None => Err(InstallError::Parse),
    }
}

/// The download named by an answer of the Azul metadata service: its
/// `url` field.
pub fn azul_download_url(answer: &str) -> (r: Result<String, InstallError>)
    ensures
        r is Ok <==> json_string_field(answer@, "url"@) is Some,
        r matches Ok(v) ==> json_string_field(answer@, "url"@) == Some(v@),
        r matches Err(e) ==> e == InstallError::Parse,
{
    required_string_field(answer, "url")
}

/// The identifier a plugin manifest declares: its `id` field.
pub fn plugin_id(manifest: &str) -> (r: Result<String, InstallError>)
    ensures
        r is Ok <==> json_string_field(manifest@, "id"@) is Some,
        r matches Ok(v) ==> json_string_field(manifest@, "id"@) == Some(v@),
        r matches Err(e) ==> e == InstallError::Parse,
{
    required_string_field(manifest, "id")
}

} // verus!
