use vstd::prelude::*;

verus! {

/// serde_json's dynamic JSON value, declared so that signatures can carry
/// it; what a value holds is reached only through the accessors below.
#[verifier::external_type_specification]
#[verifier::external_body]
pub struct ExValue(serde_json::Value);

/// The JSON document a byte string encodes, when it is valid JSON: the
/// value `serde_json::from_slice` returns on those bytes, which depends on
/// the bytes alone.
pub uninterp spec fn json_doc(b: Seq<u8>) -> Option<serde_json::Value>;

/// The member a JSON value maps a key to, when the value is an object with
/// that member: what `serde_json::Value::get` returns on it.
pub uninterp spec fn val_field(v: serde_json::Value, k: Seq<char>) -> Option<serde_json::Value>;

/// The text a JSON value holds, when it is a string: what
/// `serde_json::Value::as_str` returns on it.
pub uninterp spec fn val_str(v: serde_json::Value) -> Option<Seq<char>>;

/// The elements a JSON value holds in order, when it is an array: what
/// `serde_json::Value::as_array` returns on it.
pub uninterp spec fn val_arr(v: serde_json::Value) -> Option<Seq<serde_json::Value>>;

/// Whether a JSON value is `null`: what `serde_json::Value::is_null`
/// returns on it.
pub uninterp spec fn val_is_null(v: serde_json::Value) -> bool;

/// Relies on serde_json::from_slice: the parsed document, or nothing when
/// the bytes are not valid JSON.
#[verifier::external_body]
pub(crate) fn json_from_slice(b: &[u8]) -> (r: Option<serde_json::Value>)
    ensures
        r == json_doc(b@),
{
    serde_json::from_slice(b).ok()
}

/// Relies on serde_json::Value::get: the member under a key, or nothing
/// when the value is not an object or has no such member.
#[verifier::external_body]
pub(crate) fn value_get<'a>(v: &'a serde_json::Value, key: &str) -> (r: Option<
    &'a serde_json::Value,
>)
    ensures
        match r {
            Some(f) => val_field(*v, key@) == Some(*f),
            None => val_field(*v, key@) is None,
        },
{
    v.get(key)
}

/// Relies on serde_json::Value::as_str: the held text, when the value is a
/// JSON string.
#[verifier::external_body]
pub(crate) fn value_as_str<'a>(v: &'a serde_json::Value) -> (r: Option<&'a str>)
    ensures
        match r {
            Some(s) => val_str(*v) == Some(s@),
            None => val_str(*v) is None,
        },
{
    v.as_str()
}

/// Relies on serde_json::Value::as_array: the held elements, when the
/// value is a JSON array.
#[verifier::external_body]
pub(crate) fn value_as_array<'a>(v: &'a serde_json::Value) -> (r: Option<
    &'a Vec<serde_json::Value>,
>)
    ensures
        match r {
            Some(a) => val_arr(*v) == Some(a@),
            None => val_arr(*v) is None,
        },
{
    v.as_array()
}

/// Relies on serde_json::Value::is_null.
#[verifier::external_body]
pub(crate) fn value_is_null(v: &serde_json::Value) -> (r: bool)
    ensures
        r == val_is_null(*v),
{
    v.is_null()
}

} // verus!
