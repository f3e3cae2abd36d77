//! The structured envelope of the host-facing protocol: a frame payload is
//! the JSON serialization of a two-field object, a discriminator string
//! under one key and an array of byte values under another.
//!
//! The serialization itself is done by `serde_json`; its exact byte-level
//! output is named, not restated, and everything the bridge needs of it is
//! that parsing the serialized object yields the two fields back.

use vstd::prelude::*;

verus! {

/// The bytes that `serde_json` serializes a two-field object to: the
/// string `tag` under the key `key_a` and the byte values of `data`, as a
/// JSON array of numbers, under the key `key_b`.
pub uninterp spec fn json_object_bytes(
    key_a: Seq<char>,
    tag: Seq<char>,
    key_b: Seq<char>,
    data: Seq<u8>,
) -> Seq<u8>;

/// What parsing `bytes` as a JSON object and reading the string under
/// `key_a` and the byte array under `key_b` yields: the two fields, or
/// `None` where `bytes` is not valid JSON or lacks a field of the right
/// type.
pub uninterp spec fn json_object_fields(
    bytes: Seq<u8>,
    key_a: Seq<char>,
    key_b: Seq<char>,
) -> Option<(Seq<char>, Seq<u8>)>;

/// Relies on `serde_json::Map::insert`, `serde_json::to_string` and
/// `String::into_bytes`: with two distinct keys the object holds exactly
/// `tag` under `key_a` and the numbers of `data` under `key_b`;
/// `to_string` cannot fail on an object whose keys are strings; a JSON
/// object serialization is at least the two brace bytes long; and
/// `serde_json` parses its own output back to the same two fields.
#[verifier::external_body]
fn to_json_object(key_a: &str, tag: &str, key_b: &str, data: &Vec<u8>) -> (r: Vec<u8>)
    requires
        key_a@ != key_b@,
    ensures
        r@ == json_object_bytes(key_a@, tag@, key_b@, data@),
        r@.len() >= 2,
        json_object_fields(r@, key_a@, key_b@) == Some((tag@, data@)),
{
    let mut object = serde_json::Map::new();
    object.insert(key_a.to_string(), serde_json::Value::String(tag.to_string()));
    object.insert(key_b.to_string(), data.iter().copied().collect());
    serde_json::to_string(&serde_json::Value::Object(object))
        .expect("a string-keyed object serializes without error")
        .into_bytes()
}

/// Relies on `serde_json::from_slice` to a `serde_json::Value`,
/// `serde_json::Value::get`, and `serde_json::from_value` for `String` and
/// `Vec<u8>`: the outcome is a function of the bytes and the two keys
/// alone, and `None` comes back exactly where the bytes are not a JSON
/// object holding a string under `key_a` and an array of values 0 to 255
/// under `key_b`.
#[verifier::external_body]
fn from_json_object(bytes: &Vec<u8>, key_a: &str, key_b: &str) -> (r: Option<(String, Vec<u8>)>)
    ensures
        match (r, json_object_fields(bytes@, key_a@, key_b@)) {
            (Some(got), Some(named)) => got.0@ == named.0 && got.1@ == named.1,
            (None, None) => true,
            _ => false,
        },
{
    let value: serde_json::Value = serde_json::from_slice(bytes).ok()?;
    let tag: String = serde_json::from_value(value.get(key_a)?.clone()).ok()?;
    let data: Vec<u8> = serde_json::from_value(value.get(key_b)?.clone()).ok()?;
    Some((tag, data))
}

/// The discriminator key of the envelope object.
pub open spec fn type_key() -> Seq<char> {
    "type"@
}

/// The data key of the envelope object.
pub open spec fn data_key() -> Seq<char> {
    "data"@
}

/// The discriminator value for data emitted toward the host.
pub open spec fn buffer_tag() -> Seq<char> {
    "Buffer"@
}

/// The envelope payload that wraps a raw chunk emitted toward the host.
pub open spec fn buffer_payload(chunk: Seq<u8>) -> Seq<u8> {
    json_object_bytes(type_key(), buffer_tag(), data_key(), chunk)
}

/// The two envelope fields that parsing a payload yields, or `None` where
/// the payload is malformed.
pub open spec fn payload_fields(payload: Seq<u8>) -> Option<(Seq<char>, Seq<u8>)> {
    json_object_fields(payload, type_key(), data_key())
}

/// Wraps a raw chunk into the envelope payload that carries subprocess
/// output toward the host.  Parsing the result always yields the
/// discriminator and the chunk back.
pub fn encode_envelope(chunk: &Vec<u8>) -> (r: Vec<u8>)
    ensures
        r@ == buffer_payload(chunk@),
        r@.len() >= 2,
        payload_fields(r@) == Some((buffer_tag(), chunk@)),
{
    proof {
        reveal_strlit("type");
        reveal_strlit("data");
        assert(type_key()[0] == 't' && data_key()[0] == 'd');
    }
    to_json_object("type", "Buffer", "data", chunk)
}

/// Parses an envelope payload into its discriminator string and its data
/// bytes; `None` where the payload is malformed.
pub fn decode_envelope(payload: &Vec<u8>) -> (r: Option<(String, Vec<u8>)>)
    ensures
        match (r, payload_fields(payload@)) {
            (Some(got), Some(named)) => got.0@ == named.0 && got.1@ == named.1,
            (None, None) => true,
            _ => false,
        },
{
    from_json_object(payload, "type", "data")
}

} // verus!
