//! Reading values out of JSON documents (`serde_json::Value`).
use vstd::prelude::*;

verus! {

/// The member `key` of a JSON value; `null` when it is not an object or has no such member.
pub uninterp spec fn json_get(v: serde_json::Value, key: Seq<char>) -> serde_json::Value;

/// The text of a JSON string value.
pub uninterp spec fn json_str(v: serde_json::Value) -> Option<Seq<char>>;

/// The value of a JSON number that is a non-negative integer fitting in 64 bits.
pub uninterp spec fn json_u64(v: serde_json::Value) -> Option<u64>;

/// The value of a JSON boolean.
pub uninterp spec fn json_bool(v: serde_json::Value) -> Option<bool>;

/// The elements of a JSON array.
pub uninterp spec fn json_array(v: serde_json::Value) -> Option<Seq<serde_json::Value>>;

/// `value[key]` (`Index<&str> for serde_json::Value`), copied: the member
/// `key`, or `null` when there is none; a function of the value and the key.
#[verifier::external_body]
pub(crate) fn json_member(v: &serde_json::Value, key: &str) -> (r: serde_json::Value)
    ensures
        r == json_get(*v, key@),
{
    v[key].clone()
}

/// `Value::as_str`: the text when the value is a JSON string.
#[verifier::external_body]
pub(crate) fn json_as_str(v: &serde_json::Value) -> (r: Option<String>)
    ensures
        match json_str(*v) {
            Some(s) => r matches Some(t) && t@ == s,
            None => r is None,
        },
{
    v.as_str().map(|s| s.to_string())
}

/// `Value::as_u64`.
#[verifier::external_body]
pub(crate) fn json_as_u64(v: &serde_json::Value) -> (r: Option<u64>)
    ensures
        r == json_u64(*v),
{
    v.as_u64()
}

/// `Value::as_bool`.
#[verifier::external_body]
pub(crate) fn json_as_bool(v: &serde_json::Value) -> (r: Option<bool>)
    ensures
        r == json_bool(*v),
{
    v.as_bool()
}

/// `Value::as_array`, copied: the elements when the value is a JSON array.
#[verifier::external_body]
pub(crate) fn json_as_array(v: &serde_json::Value) -> (r: Option<Vec<serde_json::Value>>)
    ensures
        match json_array(*v) {
            Some(a) => r matches Some(w) && w@ == a,
            None => r is None,
        },
{
    v.as_array().cloned()
}

/// The text at `key`, when it is a string.
pub open spec fn str_at(v: serde_json::Value, key: Seq<char>) -> Option<Seq<char>> {
    json_str(json_get(v, key))
}

pub fn str_member(v: &serde_json::Value, key: &str) -> (r: Option<String>)
    ensures
        match str_at(*v, key@) {
            Some(s) => r matches Some(t) && t@ == s,
            None => r is None,
        },
{
    let m = json_member(v, key);
    json_as_str(&m)
}

/// The compact JSON text of a value.
pub uninterp spec fn json_text(v: serde_json::Value) -> Option<Seq<char>>;

/// `serde_json::to_string`: the compact text of the value, a function of the value.
#[verifier::external_body]
pub(crate) fn json_to_text(v: &serde_json::Value) -> (r: Option<String>)
    ensures
        match json_text(*v) {
            Some(s) => r matches Some(t) && t@ == s,
            None => r is None,
        },
{
    serde_json::to_string(v).ok()
}

/// The members of a JSON object, in the order the object keeps them (by key).
pub uninterp spec fn json_object(v: serde_json::Value) -> Option<Seq<(Seq<char>, serde_json::Value)>>;

/// `Value::as_object`, copied: the members of a JSON object with their keys,
/// in the object's order; a function of the value.
#[verifier::external_body]
pub(crate) fn json_as_object(v: &serde_json::Value) -> (r: Option<Vec<(String, serde_json::Value)>>)
    ensures
        match json_object(*v) {
            Some(m) => r matches Some(w) && w@.len() == m.len() && forall|i: int|
                0 <= i < m.len() ==> (#[trigger] w@[i]).0@ == m[i].0 && w@[i].1 == m[i].1,
            None => r is None,
        },
{
    v.as_object().map(|m| m.iter().map(|(k, x)| (k.clone(), x.clone())).collect())
}

} // verus!
