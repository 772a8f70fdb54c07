//! Trusted declarations for the JSON values that provider responses are
//! decoded from.
//!
//! Every executable item here wraps one function of the `serde_json` crate.
//! A [`serde_json::Value`] itself is opaque to the verifier, so what such a
//! value holds is given a name: [`json_model`] is the (unspecified) ghost
//! document a value stands for, and [`json_of`] the document that parsing a
//! given text yields -- `serde_json::from_str` computes from its argument
//! alone, so its result can be named.  Each wrapper's contract relates what
//! it hands back to that model, and the decoders in this crate are verified
//! against these contracts.

use vstd::prelude::*;

verus! {

/// The ghost shape of a JSON document: null, a boolean, a number, a string,
/// an array, or a string-keyed mapping.
pub enum JsonVal {
    Null,
    Bool(bool),
    Num(JsonNum),
    Str(Seq<char>),
    Arr(Seq<JsonVal>),
    Obj(Map<Seq<char>, JsonVal>),
}

/// The ghost shape of a JSON number: the decimal text its `Display`
/// renders, and its unsigned and signed 64-bit readings, absent when the
/// stored number is not an integer of that signedness.
pub struct JsonNum {
    pub text: Seq<char>,
    pub uint: Option<u64>,
    pub int: Option<i64>,
}

/// The document that parsing a text yields, or nothing when the text is not
/// JSON; `serde_json::from_str` depends on its argument alone.
pub uninterp spec fn json_of(s: Seq<char>) -> Option<JsonVal>;

/// The document a parsed JSON value stands for.
pub uninterp spec fn json_model(v: serde_json::Value) -> JsonVal;

#[verifier::external_type_specification]
#[verifier::external_body]
pub struct ExValue(serde_json::Value);

/// Relies on `serde_json::from_str`: parses a JSON document, or describes
/// why the text is not one.
#[verifier::external_body]
pub(crate) fn json_parse(s: &str) -> (r: Result<serde_json::Value, String>)
    ensures
        match r {
            Ok(v) => json_of(s@) == Some(json_model(v)),
            Err(_) => json_of(s@) is None,
        },
{
    match serde_json::from_str(s) {
        Ok(v) => Ok(v),
        Err(e) => Err(e.to_string()),
    }
}

/// Relies on `serde_json::Value::get`: looks a key up in a JSON object.
#[verifier::external_body]
pub(crate) fn json_get<'a>(v: &'a serde_json::Value, key: &str) -> (r: Option<
    &'a serde_json::Value,
>)
    ensures
        match json_model(*v) {
            JsonVal::Obj(o) => {
                if o.dom().contains(key@) {
                    r matches Some(w) && json_model(*w) == o[key@]
                } else {
                    r is None
                }
            },
            _ => r is None,
        },
{
    v.get(key)
}

/// Relies on `serde_json::Value::as_array`: the element count of a JSON
/// array.
#[verifier::external_body]
pub(crate) fn json_array_len(v: &serde_json::Value) -> (r: Option<usize>)
    ensures
        match json_model(*v) {
            JsonVal::Arr(a) => a.len() <= usize::MAX && r == Some(a.len() as usize),
            _ => r is None,
        },
{
    v.as_array().map(|a| a.len())
}

/// Relies on `serde_json::Value::as_array` and `[T]::get`: one element of a
/// JSON array.
#[verifier::external_body]
pub(crate) fn json_array_get<'a>(v: &'a serde_json::Value, i: usize) -> (r: Option<
    &'a serde_json::Value,
>)
    ensures
        match json_model(*v) {
            JsonVal::Arr(a) => {
                if i < a.len() {
                    r matches Some(w) && json_model(*w) == a[i as int]
                } else {
                    r is None
                }
            },
            _ => r is None,
        },
{
    v.as_array().and_then(|a| a.get(i))
}

/// Relies on `serde_json::Value::as_object` and `Map::keys`: the keys of a
/// JSON object, each exactly once.  (The backing map iterates its keys in
/// sorted order, but nothing here relies on the order.)
#[verifier::external_body]
pub(crate) fn json_object_keys(v: &serde_json::Value) -> (r: Option<Vec<String>>)
    ensures
        match json_model(*v) {
            JsonVal::Obj(o) => r matches Some(ks) && {
                &&& forall|j: int| 0 <= j < ks@.len() ==> o.dom().contains(#[trigger] ks@[j]@)
                &&& forall|j1: int, j2: int|
                    0 <= j1 < j2 < ks@.len() ==> ks@[j1]@ != ks@[j2]@
                &&& forall|k: Seq<char>|
                    o.dom().contains(k) ==> exists|j: int|
                        0 <= j < ks@.len() && #[trigger] ks@[j]@ == k
            },
            _ => r is None,
        },
{
    v.as_object().map(|m| m.keys().cloned().collect())
}

/// Relies on `serde_json::Value::as_str`.
#[verifier::external_body]
pub(crate) fn json_str(v: &serde_json::Value) -> (r: Option<String>)
    ensures
        match json_model(*v) {
            JsonVal::Str(s) => r matches Some(rs) && rs@ == s,
            _ => r is None,
        },
{
    v.as_str().map(|s| s.to_owned())
}

/// Relies on `serde_json::Value::as_u64`: the number's unsigned reading.
#[verifier::external_body]
pub(crate) fn json_u64(v: &serde_json::Value) -> (r: Option<u64>)
    ensures
        match json_model(*v) {
            JsonVal::Num(n) => r == n.uint,
            _ => r is None,
        },
{
    v.as_u64()
}

/// Relies on `serde_json::Value::as_i64`: the number's signed reading.
#[verifier::external_body]
pub(crate) fn json_i64(v: &serde_json::Value) -> (r: Option<i64>)
    ensures
        match json_model(*v) {
            JsonVal::Num(n) => r == n.int,
            _ => r is None,
        },
{
    v.as_i64()
}

/// Relies on `serde_json::Number::to_string`: the decimal text of a JSON
/// number, which depends on the stored number alone.
#[verifier::external_body]
pub(crate) fn json_number_text(v: &serde_json::Value) -> (r: Option<String>)
    ensures
        match json_model(*v) {
            JsonVal::Num(n) => r matches Some(rs) && rs@ == n.text,
            _ => r is None,
        },
{
    match v {
        serde_json::Value::Number(n) => Some(n.to_string()),
        _ => None,
    }
}

} // verus!
