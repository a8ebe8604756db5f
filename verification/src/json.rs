//! Opaque JSON values carried through the protocol, and the few
//! `serde_json` queries the logic makes.

use vstd::prelude::*;

verus! {

#[verifier::external_type_specification]
#[verifier::external_body]
pub struct ExJsonValue(serde_json::Value);

#[verifier::external_type_specification]
#[verifier::external_body]
#[verifier::reject_recursive_types(K)]
#[verifier::reject_recursive_types(V)]
pub struct ExJsonMap<K, V>(serde_json::Map<K, V>);

/// `Clone` for `serde_json::Value`: the crate derives it, so the copy is
/// the same value.
pub assume_specification[ <serde_json::Value as Clone>::clone ](v: &serde_json::Value) -> (r:
    serde_json::Value)
    ensures
        r == *v,
;

/// The map inside a JSON object value (`None` for other values).
pub uninterp spec fn json_object_of(v: serde_json::Value) -> Option<
    serde_json::Map<String, serde_json::Value>,
>;

/// Number of entries of a JSON object map.
pub uninterp spec fn json_map_len_of(m: serde_json::Map<String, serde_json::Value>) -> nat;

/// Entry of a JSON object map under `key`.
pub uninterp spec fn json_map_entry(
    m: serde_json::Map<String, serde_json::Value>,
    key: Seq<char>,
) -> Option<serde_json::Value>;

/// The text of a JSON string value (`None` for other values).
pub uninterp spec fn json_str_of(v: serde_json::Value) -> Option<Seq<char>>;

/// The value of a JSON number that fits a `u64` (`None` otherwise).
pub uninterp spec fn json_u64_of(v: serde_json::Value) -> Option<u64>;

/// Compact JSON text of a value, as `serde_json::to_string` writes it.
pub uninterp spec fn json_text_of(v: serde_json::Value) -> Seq<char>;

/// `serde_json::Value::as_object`: the map of an object value, `None` for
/// any other value. Which values are objects is not stated; the result is
/// named `json_object_of`.
#[verifier::external_body]
pub(crate) fn json_as_object(v: &serde_json::Value) -> (r: Option<&serde_json::Map<String, serde_json::Value>>)
    ensures
        r is Some <==> json_object_of(*v) is Some,
        r matches Some(m) ==> *m == json_object_of(*v)->0,
{
    v.as_object()
}

/// `serde_json::Map::len`: the number of entries, named `json_map_len_of`.
#[verifier::external_body]
pub(crate) fn json_map_len(m: &serde_json::Map<String, serde_json::Value>) -> (n: usize)
    ensures
        n == json_map_len_of(*m),
{
    m.len()
}

/// `serde_json::Map::get`: the entry under `key`, named `json_map_entry`.
#[verifier::external_body]
pub(crate) fn json_map_get<'a>(m: &'a serde_json::Map<String, serde_json::Value>, key: &str) -> (r:
    Option<&'a serde_json::Value>)
    ensures
        r is Some <==> json_map_entry(*m, key@) is Some,
        r matches Some(x) ==> *x == json_map_entry(*m, key@)->0,
{
    m.get(key)
}

/// `serde_json::Value::get` with a string key: for an object, the map's
/// entry under `key`; for any other value, `None` (as the crate's `Index
/// for str` implementation shows).
#[verifier::external_body]
pub(crate) fn json_get<'a>(v: &'a serde_json::Value, key: &str) -> (r: Option<&'a serde_json::Value>)
    ensures
        r is Some <==> (match json_object_of(*v) {
            Some(m) => json_map_entry(m, key@) is Some,
            None => false,
        }),
        r matches Some(x) ==> *x == json_map_entry(json_object_of(*v)->0, key@)->0,
{
    v.get(key)
}

/// `serde_json::Value::as_str`: the text of a string value, named
/// `json_str_of`.
#[verifier::external_body]
pub(crate) fn json_as_str(v: &serde_json::Value) -> (r: Option<&str>)
    ensures
        r is Some <==> json_str_of(*v) is Some,
        r matches Some(s) ==> s@ == json_str_of(*v)->0,
{
    v.as_str()
}

/// `serde_json::Value::as_u64`: a number that fits a `u64`, named
/// `json_u64_of`.
#[verifier::external_body]
pub(crate) fn json_as_u64(v: &serde_json::Value) -> (r: Option<u64>)
    ensures
        r == json_u64_of(*v),
{
    v.as_u64()
}

/// `serde_json::to_string` on a value: its compact JSON text, named
/// `json_text_of`. Serialising a `Value` does not fail (its maps have
/// string keys), so the empty fallback is never taken.
#[verifier::external_body]
pub(crate) fn json_to_text(v: &serde_json::Value) -> (s: String)
    ensures
        s@ == json_text_of(*v),
{
    serde_json::to_string(v).unwrap_or_default()
}

} // verus!
