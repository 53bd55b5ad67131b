//! The library's model of a metadata blob: a key/value map of JSON-like
//! values. Parsing and serialization go through `serde_json`; everything the
//! validation and cleanup logic reads is held in the library's own types,
//! while value shapes the logic never inspects ride along opaquely so that a
//! blob survives a parse/serialize round trip.

use vstd::prelude::*;

verus! {

#[verifier::external_type_specification]
#[verifier::external_body]
pub struct ExValue(serde_json::Value);

#[verifier::external_type_specification]
#[verifier::external_body]
pub struct ExNumber(serde_json::Number);

/// A JSON value found as a member of an object stored under a metadata key.
/// Only what the validation logic reads is broken out; nested objects and
/// arrays are carried opaquely.
pub enum MetaScalar {
    Null,
    Bool(bool),
    /// A number with an exact 64-bit integer value.
    Int(i64),
    /// A number with no exact 64-bit integer value.
    OtherNum(serde_json::Number),
    Str(String),
    /// A nested object or array, carried through unread.
    Other(serde_json::Value),
}

/// A member of an object stored under a metadata key.
pub struct ScalarPair {
    pub key: String,
    pub value: MetaScalar,
}

/// A JSON value stored under a metadata key.
pub enum MetaValue {
    Null,
    Bool(bool),
    /// A number with an exact 64-bit integer value.
    Int(i64),
    /// A number with no exact 64-bit integer value.
    OtherNum(serde_json::Number),
    Str(String),
    /// An object, with its members broken out in order.
    Obj(Vec<ScalarPair>),
    /// An array or any other shape, carried through unread.
    Other(serde_json::Value),
}

/// A metadata key with its value.
pub struct MetaPair {
    pub key: String,
    pub value: MetaValue,
}

/// What parsing a metadata blob returns: the key/value pairs of the JSON
/// object in order, or nothing when the text is not a JSON object. The
/// result is a function of the text alone.
pub uninterp spec fn meta_parse(s: Seq<char>) -> Option<Seq<MetaPair>>;

/// What serializing a metadata map returns. The result is a function of the
/// pairs alone.
pub uninterp spec fn meta_ser(m: Seq<MetaPair>) -> Seq<char>;

/// Conversion helper of the parse boundary: sorts one object-member value
/// into the library's model, one variant each.
#[verifier::external_body]
fn meta_scalar_of(v: serde_json::Value) -> MetaScalar {
    match v {
        serde_json::Value::Null => MetaScalar::Null,
        serde_json::Value::Bool(b) => MetaScalar::Bool(b),
        serde_json::Value::Number(n) => match n.as_i64() {
            Some(i) => MetaScalar::Int(i),
            None => MetaScalar::OtherNum(n),
        },
        serde_json::Value::String(t) => MetaScalar::Str(t),
        other => MetaScalar::Other(other),
    }
}

/// Conversion helper of the parse boundary: sorts one stored value into the
/// library's model, one variant each, breaking an object into its members.
#[verifier::external_body]
fn meta_value_of(v: serde_json::Value) -> MetaValue {
    match v {
        serde_json::Value::Null => MetaValue::Null,
        serde_json::Value::Bool(b) => MetaValue::Bool(b),
        serde_json::Value::Number(n) => match n.as_i64() {
            Some(i) => MetaValue::Int(i),
            None => MetaValue::OtherNum(n),
        },
        serde_json::Value::String(t) => MetaValue::Str(t),
        serde_json::Value::Object(o) => MetaValue::Obj(
            o.into_iter().map(|(k, w)| ScalarPair { key: k, value: meta_scalar_of(w) }).collect(),
        ),
        other => MetaValue::Other(other),
    }
}

/// Conversion helper of the serialize boundary: the inverse of
/// `meta_scalar_of`, one variant each.
#[verifier::external_body]
fn json_of_scalar(m: MetaScalar) -> serde_json::Value {
    match m {
        MetaScalar::Null => serde_json::Value::Null,
        MetaScalar::Bool(b) => serde_json::Value::Bool(b),
        MetaScalar::Int(i) => serde_json::Value::from(i),
        MetaScalar::OtherNum(n) => serde_json::Value::Number(n),
        MetaScalar::Str(s) => serde_json::Value::String(s),
        MetaScalar::Other(v) => v,
    }
}

/// Conversion helper of the serialize boundary: the inverse of
/// `meta_value_of`, one variant each.
#[verifier::external_body]
fn json_of_meta(m: MetaValue) -> serde_json::Value {
    match m {
        MetaValue::Null => serde_json::Value::Null,
        MetaValue::Bool(b) => serde_json::Value::Bool(b),
        MetaValue::Int(i) => serde_json::Value::from(i),
        MetaValue::OtherNum(n) => serde_json::Value::Number(n),
        MetaValue::Str(s) => serde_json::Value::String(s),
        MetaValue::Obj(pairs) => serde_json::Value::Object(
            pairs.into_iter().map(|p| (p.key, json_of_scalar(p.value))).collect(),
        ),
        MetaValue::Other(v) => v,
    }
}

/// Relies on `serde_json::from_str` to parse a string-keyed JSON object, and
/// on `serde_json::Number::as_i64` to sort numbers into those with an exact
/// 64-bit integer value and the rest. On failure it returns the parser's
/// message.
#[verifier::external_body]
pub(crate) fn parse_metadata_text(s: &str) -> (r: Result<Vec<MetaPair>, String>)
    ensures
        match r {
            Ok(m) => meta_parse(s@) == Some(m@),
            Err(_) => meta_parse(s@) is None,
        },
{
    let m: serde_json::Map<String, serde_json::Value> = match serde_json::from_str(s) {
        Ok(m) => m,
        Err(e) => return Err(e.to_string()),
    };
    Ok(m.into_iter().map(|(k, v)| MetaPair { key: k, value: meta_value_of(v) }).collect())
}

/// Relies on `serde_json::to_string` over a rebuilt JSON object to render
/// the pairs as JSON text (object keys come out in sorted order).
#[verifier::external_body]
pub(crate) fn metadata_to_text(pairs: Vec<MetaPair>) -> (r: String)
    ensures
        r@ == meta_ser(pairs@),
{
    let mut map = serde_json::Map::new();
    for p in pairs.into_iter() {
        map.insert(p.key, json_of_meta(p.value));
    }
    serde_json::to_string(&serde_json::Value::Object(map)).unwrap_or_default()
}

} // verus!
