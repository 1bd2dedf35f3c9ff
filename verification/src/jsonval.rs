//! Trusted access wrappers around `serde_json::Value`, and the verified
//! lookup helpers built on them.
//!
//! A JSON value is opaque here: nothing can be stated about what a given
//! document contains, so the wrappers carry no contracts and every decision
//! over what they return is made by verified callers.

use vstd::prelude::*;

use crate::dom::query_all_texts;
use crate::text::str_eq;

verus! {

#[verifier::external_type_specification]
#[verifier::external_body]
pub struct ExValue(serde_json::Value);

/// Relies on `serde_json::from_str`: the parsed JSON document, or `None`
/// when the text is not valid JSON.
#[verifier::external_body]
pub(crate) fn json_parse(s: &str) -> (r: Option<serde_json::Value>) {
    serde_json::from_str(s).ok()
}

/// Relies on `serde_json::Value::get`: the member of an object under `key`.
#[verifier::external_body]
pub(crate) fn json_get<'a>(v: &'a serde_json::Value, key: &str) -> (r: Option<
    &'a serde_json::Value,
>) {
    v.get(key)
}

/// Relies on `serde_json::Value::as_array`: the element at `i` of an array.
#[verifier::external_body]
pub(crate) fn json_index<'a>(v: &'a serde_json::Value, i: usize) -> (r: Option<
    &'a serde_json::Value,
>) {
    v.as_array().and_then(|a| a.get(i))
}

/// Relies on `serde_json::Value::as_array`: the length of an array value.
#[verifier::external_body]
pub(crate) fn json_array_len(v: &serde_json::Value) -> (r: Option<usize>) {
    v.as_array().map(|a| a.len())
}

/// Relies on `serde_json::Value::as_str`: the content of a string value.
#[verifier::external_body]
pub(crate) fn json_str(v: &serde_json::Value) -> (r: Option<String>) {
    v.as_str().map(|s| s.to_string())
}

/// Relies on `serde_json::Value::as_u64`: the content of an unsigned
/// integer value.
#[verifier::external_body]
pub(crate) fn json_u64(v: &serde_json::Value) -> (r: Option<u64>) {
    v.as_u64()
}

/// Relies on `serde_json::Value::as_bool`: the content of a boolean value.
#[verifier::external_body]
pub(crate) fn json_bool(v: &serde_json::Value) -> (r: Option<bool>) {
    v.as_bool()
}

/// Relies on `serde_json::Value::is_number` and its `Display`: the decimal
/// rendering of a number value, as serde_json prints it.
#[verifier::external_body]
pub(crate) fn json_number_string(v: &serde_json::Value) -> (r: Option<String>) {
    if v.is_number() {
        Some(v.to_string())
    } else {
        None
    }
}

/// Relies on `serde_json::Value::clone`.
#[verifier::external_body]
pub(crate) fn json_clone(v: &serde_json::Value) -> (r: serde_json::Value) {
    v.clone()
}

/// The member under `k1`, else the member under `k2`.
pub(crate) fn json_get_or<'a>(v: &'a serde_json::Value, k1: &str, k2: &str) -> (r: Option<
    &'a serde_json::Value,
>) {
    match json_get(v, k1) {
        Some(x) => Some(x),
        None => json_get(v, k2),
    }
}

/// The string member of `v` under `key`.
pub(crate) fn json_str_field(v: &serde_json::Value, key: &str) -> (r: Option<String>) {
    match json_get(v, key) {
        Some(x) => json_str(x),
        None => None,
    }
}

/// A numeric value carried either as a string or as a JSON number, as text.
pub(crate) fn json_numeric_text(v: &serde_json::Value) -> (r: Option<String>) {
    match json_str(v) {
        Some(s) => Some(s),
        None => json_number_string(v),
    }
}

/// Whether the value's `@type` member is the product marker.
pub(crate) fn json_is_product(v: &serde_json::Value) -> (r: bool) {
    if let Some(t) = json_get(v, "@type") {
        if let Some(s) = json_str(t) {
            return str_eq(s.as_str(), "Product");
        }
    }
    false
}

/// Extract the embedded structured-data block of a page: the first JSON
/// payload in a structured-data script element that describes a product,
/// either directly or as an element of an array.
pub fn extract_json_ld(html: &str) -> (r: Option<serde_json::Value>) {
    let texts = query_all_texts(html, "script[type=\"application/ld+json\"]", "");
    let n = texts.len();
    let mut i: usize = 0;
    while i < n
        invariant
            n == texts@.len(),
        decreases n - i,
    {
        if let Some(parsed) = json_parse(texts[i].as_str()) {
            if json_is_product(&parsed) {
                return Some(parsed);
            }
            if let Some(len) = json_array_len(&parsed) {
                let mut j: usize = 0;
                while j < len
                    decreases len - j,
                {
                    if let Some(item) = json_index(&parsed, j) {
                        if json_is_product(item) {
                            return Some(json_clone(item));
                        }
                    }
                    j = j + 1;
                }
            }
        }
        i = i + 1;
    }
    None
}

} // verus!
