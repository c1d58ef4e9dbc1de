//! The JSON boundary.
//!
//! Payloads arrive as JSON text and are taken apart with `serde_json`.
//! Everything serde_json reads is a function of the payload bytes alone, so
//! each reading is given a name; the accessors below are trusted to return
//! exactly the named reading, and the verified decode in `message` carries
//! the names into its own contract. The shape they enforce is the canonical
//! envelope: a JSON object holding an object under `data`, an object under
//! `metadata`, and a string under `uuid`.

use vstd::prelude::*;

verus! {

/// The payload parses as the canonical envelope shape.
pub uninterp spec fn payload_shape_ok(payload: Seq<u8>) -> bool;

/// The text under the envelope's `uuid` key (meaningful when the shape
/// holds).
pub uninterp spec fn payload_uuid(payload: Seq<u8>) -> Seq<char>;

/// A text field of the `data` block: `Ok(None)` when absent or null,
/// `Ok(Some(text))` for a string, `Err` for any other shape.
pub uninterp spec fn payload_data_text(payload: Seq<u8>, key: Seq<char>) -> Result<
    Option<Seq<char>>,
    (),
>;

/// A numeric field of the `data` block, as text: `Ok(None)` when absent or
/// null, `Ok(Some(text))` for a string's content or a number's printed
/// form, `Err` for any other shape.
pub uninterp spec fn payload_data_numeric(payload: Seq<u8>, key: Seq<char>) -> Result<
    Option<Seq<char>>,
    (),
>;

/// The device id the `metadata` block carries, read like a `data` text
/// field.
pub uninterp spec fn payload_meta_device(payload: Seq<u8>) -> Result<Option<Seq<char>>, ()>;

/// The whole `metadata` block printed back as JSON text (meaningful when
/// the shape holds).
pub uninterp spec fn payload_meta_json(payload: Seq<u8>) -> Seq<char>;

/// Relies on `serde_json::from_slice`, `Value::get`, `Value::is_object` and
/// `Value::as_str`: checks the envelope shape — exactly `payload_shape_ok`
/// — and hands out the uuid text.
#[verifier::external_body]
pub(crate) fn doc_uuid(payload: &[u8]) -> (r: Option<String>)
    ensures
        r is Some <==> payload_shape_ok(payload@),
        match r {
            Some(u) => u@ == payload_uuid(payload@),
            None => true,
        },
{
    let v: serde_json::Value = match serde_json::from_slice(payload) {
        Ok(v) => v,
        Err(_) => return None,
    };
    if !matches!(v.get("data"), Some(d) if d.is_object()) {
        return None;
    }
    if !matches!(v.get("metadata"), Some(m) if m.is_object()) {
        return None;
    }
    match v.get("uuid") {
        Some(u) => u.as_str().map(str::to_string),
        None => None,
    }
}

/// Relies on `serde_json::from_slice`, `Value::get`, `Value::is_null` and
/// `Value::as_str`: the named reading of a text field of the `data` block.
#[verifier::external_body]
pub(crate) fn doc_data_text(payload: &[u8], key: &str) -> (r: Result<Option<String>, ()>)
    ensures
        match r {
            Ok(Some(t)) => payload_data_text(payload@, key@) == Ok::<Option<Seq<char>>, ()>(
                Some(t@),
            ),
            Ok(None) => payload_data_text(payload@, key@) == Ok::<Option<Seq<char>>, ()>(None),
            Err(()) => payload_data_text(payload@, key@) is Err,
        },
{
    let v: serde_json::Value = match serde_json::from_slice(payload) {
        Ok(v) => v,
        Err(_) => return Ok(None),
    };
    let f = match v.get("data") { Some(d) => d.get(key), None => None };
    match f {
        None => Ok(None),
        Some(x) if x.is_null() => Ok(None),
        Some(x) => match x.as_str() {
            Some(t) => Ok(Some(t.to_string())),
            None => Err(()),
        },
    }
}

/// Relies additionally on `Value::is_number` and `Display for Value`: the
/// named reading of a numeric field of the `data` block — a string's
/// content, or a number printed back as text.
#[verifier::external_body]
pub(crate) fn doc_data_numeric(payload: &[u8], key: &str) -> (r: Result<Option<String>, ()>)
    ensures
        match r {
            Ok(Some(t)) => payload_data_numeric(payload@, key@) == Ok::<Option<Seq<char>>, ()>(
                Some(t@),
            ),
            Ok(None) => payload_data_numeric(payload@, key@) == Ok::<Option<Seq<char>>, ()>(None),
            Err(()) => payload_data_numeric(payload@, key@) is Err,
        },
{
    let v: serde_json::Value = match serde_json::from_slice(payload) {
        Ok(v) => v,
        Err(_) => return Ok(None),
    };
    let f = match v.get("data") { Some(d) => d.get(key), None => None };
    match f {
        None => Ok(None),
        Some(x) if x.is_null() => Ok(None),
        Some(x) => match x.as_str() {
            Some(t) => Ok(Some(t.to_string())),
            None if x.is_number() => Ok(Some(x.to_string())),
            None => Err(()),
        },
    }
}

/// Relies on the same readers over the `metadata` block: the named reading
/// of its `DEVICE_ID` field.
#[verifier::external_body]
pub(crate) fn doc_meta_device(payload: &[u8]) -> (r: Result<Option<String>, ()>)
    ensures
        match r {
            Ok(Some(t)) => payload_meta_device(payload@) == Ok::<Option<Seq<char>>, ()>(Some(t@)),
            Ok(None) => payload_meta_device(payload@) == Ok::<Option<Seq<char>>, ()>(None),
            Err(()) => payload_meta_device(payload@) is Err,
        },
{
    let v: serde_json::Value = match serde_json::from_slice(payload) {
        Ok(v) => v,
        Err(_) => return Ok(None),
    };
    let f = match v.get("metadata") { Some(m) => m.get("DEVICE_ID"), None => None };
    match f {
        None => Ok(None),
        Some(x) if x.is_null() => Ok(None),
        Some(x) => match x.as_str() {
            Some(t) => Ok(Some(t.to_string())),
            None => Err(()),
        },
    }
}

/// Relies on `Display for serde_json::Value`: the `metadata` block printed
/// back as compact JSON text. Present whenever the envelope shape holds.
#[verifier::external_body]
pub(crate) fn doc_meta_json(payload: &[u8]) -> (r: Option<String>)
    ensures
        match r {
            Some(t) => t@ == payload_meta_json(payload@),
            None => !payload_shape_ok(payload@),
        },
{
    let v: serde_json::Value = match serde_json::from_slice(payload) {
        Ok(v) => v,
        Err(_) => return None,
    };
    match v.get("metadata") {
        Some(m) => Some(m.to_string()),
        None => None,
    }
}

} // verus!
