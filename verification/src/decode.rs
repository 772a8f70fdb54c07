//! Verified helpers shared by the provider decoders.
//!
//! Provider responses are decoded from opaque JSON values through the
//! trusted accessors of [`crate::json`]; the helpers here combine those
//! accessors into typed field reads, each specified against the ghost
//! document model [`JsonVal`].  String-keyed mappings of a response are
//! carried as association lists that agree with the document's object on
//! every key, looked up with [`assoc_get`].

use vstd::prelude::*;
use crate::fixed::{
    parse_fixed, spec_format_i64, spec_parse_fixed, format_i64, str_eq,
};
use crate::json::{
    json_get, json_i64, json_model, json_number_text, json_object_keys, json_str, json_u64,
    JsonVal,
};

verus! {

/// The field of the document `m` under `k`, when `m` is an object that has
/// one.
pub open spec fn jfield(m: JsonVal, k: Seq<char>) -> Option<JsonVal> {
    match m {
        JsonVal::Obj(o) => {
            if o.dom().contains(k) {
                Some(o[k])
            } else {
                None
            }
        },
        _ => None,
    }
}

/// The string field of `m` under `k`, if there is one and it is a string.
pub open spec fn jfield_str(m: JsonVal, k: Seq<char>) -> Option<Seq<char>> {
    match jfield(m, k) {
        Some(JsonVal::Str(s)) => Some(s),
        _ => None,
    }
}

/// The unsigned reading of the number field of `m` under `k`.
pub open spec fn jfield_u64(m: JsonVal, k: Seq<char>) -> Option<u64> {
    match jfield(m, k) {
        Some(JsonVal::Num(n)) => n.uint,
        _ => None,
    }
}

/// The signed reading of the number field of `m` under `k`.
pub open spec fn jfield_i64(m: JsonVal, k: Seq<char>) -> Option<i64> {
    match jfield(m, k) {
        Some(JsonVal::Num(n)) => n.int,
        _ => None,
    }
}

/// The number field of `m` under `k` as a fixed-point value in units of
/// `10^-9`: its decimal text run through the parsing spec.
pub open spec fn jfield_coord(m: JsonVal, k: Seq<char>) -> Option<i64> {
    match jfield(m, k) {
        Some(JsonVal::Num(n)) => spec_parse_fixed(n.text),
        _ => None,
    }
}

/// The field of `m` under `k` normalized to a string: a string passes
/// through, an integer that fits 32 bits is rendered in decimal.
pub open spec fn jfield_str_or_int(m: JsonVal, k: Seq<char>) -> Option<Seq<char>> {
    match jfield(m, k) {
        Some(JsonVal::Str(s)) => Some(s),
        Some(JsonVal::Num(n)) => match n.int {
            Some(i) => {
                if i32::MIN <= i <= i32::MAX {
                    Some(spec_format_i64(i as int))
                } else {
                    None
                }
            },
            None => None,
        },
        _ => None,
    }
}

/// The element `i` of the array `m` as a fixed-point value in units of
/// `10^-9`: its decimal text run through the parsing spec.
pub open spec fn jelem_coord(m: JsonVal, i: int) -> Option<i64> {
    match m {
        JsonVal::Arr(a) => {
            if 0 <= i < a.len() {
                match a[i] {
                    JsonVal::Num(n) => spec_parse_fixed(n.text),
                    _ => None,
                }
            } else {
                None
            }
        },
        _ => None,
    }
}

/// Whether an optional decoded string reads an optional document field:
/// both absent, or both present with the same text.
pub open spec fn opt_str_matches(o: Option<String>, f: Option<Seq<char>>) -> bool {
    match o {
        Some(s) => f == Some(s@),
        None => f is None,
    }
}

/// The value under the first entry of `m` whose key reads `k`, if any.
pub open spec fn spec_assoc_get(m: Seq<(String, String)>, k: Seq<char>) -> Option<Seq<char>>
    decreases m.len(),
{
    if m.len() == 0 {
        None
    } else if m[0].0@ == k {
        Some(m[0].1@)
    } else {
        spec_assoc_get(m.drop_first(), k)
    }
}

/// Look `k` up in the association list `m`.
pub fn assoc_get<'a>(m: &'a Vec<(String, String)>, k: &str) -> (r: Option<&'a String>)
    ensures
        match r {
            Some(v) => spec_assoc_get(m@, k@) == Some(v@),
            None => spec_assoc_get(m@, k@) == None::<Seq<char>>,
        },
{
    let ghost mv = m@;
    let mut i: usize = 0;
    proof {
        assert(mv.skip(0) =~= mv);
    }
    while i < m.len()
        invariant
            m@ == mv,
            0 <= i <= m.len(),
            spec_assoc_get(mv, k@) == spec_assoc_get(mv.skip(i as int), k@),
        decreases m.len() - i,
    {
        let pair = &m[i];
        if str_eq(pair.0.as_str(), k) {
            proof {
                assert(mv.skip(i as int)[0] == mv[i as int]);
            }
            return Some(&m[i].1);
        }
        i = i + 1;
        proof {
            assert(mv.skip(i - 1)[0] == mv[i - 1]);
            assert(mv.skip(i - 1).drop_first() =~= mv.skip(i as int));
        }
    }
    proof {
        assert(mv.skip(i as int).len() == 0);
    }
    None
}

/// The value under the first entry of `m` whose key reads `k`, if any.
pub open spec fn spec_assoc_get_i64(m: Seq<(String, i64)>, k: Seq<char>) -> Option<i64>
    decreases m.len(),
{
    if m.len() == 0 {
        None
    } else if m[0].0@ == k {
        Some(m[0].1)
    } else {
        spec_assoc_get_i64(m.drop_first(), k)
    }
}

/// Look `k` up in the association list `m`.
pub fn assoc_get_i64(m: &Vec<(String, i64)>, k: &str) -> (r: Option<i64>)
    ensures
        r == spec_assoc_get_i64(m@, k@),
{
    let ghost mv = m@;
    let mut i: usize = 0;
    proof {
        assert(mv.skip(0) =~= mv);
    }
    while i < m.len()
        invariant
            m@ == mv,
            0 <= i <= m.len(),
            spec_assoc_get_i64(mv, k@) == spec_assoc_get_i64(mv.skip(i as int), k@),
        decreases m.len() - i,
    {
        let pair = &m[i];
        if str_eq(pair.0.as_str(), k) {
            proof {
                assert(mv.skip(i as int)[0] == mv[i as int]);
            }
            return Some(m[i].1);
        }
        i = i + 1;
        proof {
            assert(mv.skip(i - 1)[0] == mv[i - 1]);
            assert(mv.skip(i - 1).drop_first() =~= mv.skip(i as int));
        }
    }
    proof {
        assert(mv.skip(i as int).len() == 0);
    }
    None
}

proof fn lemma_assoc_get_push(ps: Seq<(String, String)>, p: (String, String), k: Seq<char>)
    ensures
        spec_assoc_get(ps.push(p), k) == (match spec_assoc_get(ps, k) {
            Some(v) => Some(v),
            None => if p.0@ == k {
                Some(p.1@)
            } else {
                None
            },
        }),
    decreases ps.len(),
{
    if ps.len() == 0 {
        assert(ps.push(p)[0] == p);
        assert(ps.push(p).drop_first() =~= Seq::<(String, String)>::empty());
        if p.0@ == k {
            assert(spec_assoc_get(ps.push(p), k) == Some(p.1@));
        } else {
            assert(spec_assoc_get(ps.push(p), k) == spec_assoc_get(ps.push(p).drop_first(), k));
            assert(spec_assoc_get(ps.push(p).drop_first(), k) is None);
        }
        assert(spec_assoc_get(ps, k) is None);
    } else {
        assert(ps.push(p)[0] == ps[0]);
        assert(ps.push(p).drop_first() =~= ps.drop_first().push(p));
        lemma_assoc_get_push(ps.drop_first(), p, k);
        if ps[0].0@ == k {
            assert(spec_assoc_get(ps.push(p), k) == Some(ps[0].1@));
            assert(spec_assoc_get(ps, k) == Some(ps[0].1@));
        } else {
            assert(spec_assoc_get(ps.push(p), k) == spec_assoc_get(ps.drop_first().push(p), k));
            assert(spec_assoc_get(ps, k) == spec_assoc_get(ps.drop_first(), k));
        }
    }
}

proof fn lemma_assoc_get_i64_push(ps: Seq<(String, i64)>, p: (String, i64), k: Seq<char>)
    ensures
        spec_assoc_get_i64(ps.push(p), k) == (match spec_assoc_get_i64(ps, k) {
            Some(v) => Some(v),
            None => if p.0@ == k {
                Some(p.1)
            } else {
                None
            },
        }),
    decreases ps.len(),
{
    if ps.len() == 0 {
        assert(ps.push(p)[0] == p);
        assert(ps.push(p).drop_first() =~= Seq::<(String, i64)>::empty());
        if p.0@ == k {
            assert(spec_assoc_get_i64(ps.push(p), k) == Some(p.1));
        } else {
            assert(spec_assoc_get_i64(ps.push(p), k) == spec_assoc_get_i64(
                ps.push(p).drop_first(),
                k,
            ));
            assert(spec_assoc_get_i64(ps.push(p).drop_first(), k) is None);
        }
        assert(spec_assoc_get_i64(ps, k) is None);
    } else {
        assert(ps.push(p)[0] == ps[0]);
        assert(ps.push(p).drop_first() =~= ps.drop_first().push(p));
        lemma_assoc_get_i64_push(ps.drop_first(), p, k);
        if ps[0].0@ == k {
            assert(spec_assoc_get_i64(ps.push(p), k) == Some(ps[0].1));
            assert(spec_assoc_get_i64(ps, k) == Some(ps[0].1));
        } else {
            assert(spec_assoc_get_i64(ps.push(p), k) == spec_assoc_get_i64(
                ps.drop_first().push(p),
                k,
            ));
            assert(spec_assoc_get_i64(ps, k) == spec_assoc_get_i64(ps.drop_first(), k));
        }
    }
}

/// The string under `key`, if the field is there and is a string.
pub(crate) fn get_string(v: &serde_json::Value, key: &str) -> (r: Option<String>)
    ensures
        match r {
            Some(s) => jfield_str(json_model(*v), key@) == Some(s@),
            None => jfield_str(json_model(*v), key@) is None,
        },
{
    match json_get(v, key) {
        Some(f) => json_str(f),
        None => None,
    }
}

/// The number under `key` as a fixed-point value in units of `10^-9`, if
/// the field is there, is a number, and fits.
pub(crate) fn get_coord(v: &serde_json::Value, key: &str) -> (r: Option<i64>)
    ensures
        r == jfield_coord(json_model(*v), key@),
{
    match json_get(v, key) {
        Some(f) => match json_number_text(f) {
            Some(t) => parse_fixed(t.as_str()),
            None => None,
        },
        None => None,
    }
}

/// The number under `key` as a `u64`, if the field is there and is a
/// nonnegative integer.
pub(crate) fn get_u64(v: &serde_json::Value, key: &str) -> (r: Option<u64>)
    ensures
        r == jfield_u64(json_model(*v), key@),
{
    match json_get(v, key) {
        Some(f) => json_u64(f),
        None => None,
    }
}

/// The number under `key` as an `i64`, if the field is there and is an
/// integer.
pub(crate) fn get_i64(v: &serde_json::Value, key: &str) -> (r: Option<i64>)
    ensures
        r == jfield_i64(json_model(*v), key@),
{
    match json_get(v, key) {
        Some(f) => json_i64(f),
        None => None,
    }
}

/// The string under `key`, also accepting a 32-bit integer and rendering it
/// in decimal -- the tolerance the wire format calls for on fields that
/// some backends send either way.
pub fn string_or_int(v: &serde_json::Value, key: &str) -> (r: Option<String>)
    ensures
        match r {
            Some(s) => jfield_str_or_int(json_model(*v), key@) == Some(s@),
            None => jfield_str_or_int(json_model(*v), key@) is None,
        },
{
    match json_get(v, key) {
        Some(f) => match json_str(f) {
            Some(s) => Some(s),
            None => match json_i64(f) {
                Some(n) => {
                    if i32::MIN as i64 <= n && n <= i32::MAX as i64 {
                        Some(format_i64(n))
                    } else {
                        None
                    }
                },
                None => None,
            },
        },
        None => None,
    }
}

/// Whether `m` is an array of strings.
pub open spec fn str_items_ok(m: JsonVal) -> bool {
    m matches JsonVal::Arr(a) && forall|i: int|
        0 <= i < a.len() ==> (#[trigger] a[i]) matches JsonVal::Str(_)
}

/// Whether `xs` reads, in order, the strings of the array `m`.
pub open spec fn str_items_match(xs: Seq<String>, m: JsonVal) -> bool {
    m matches JsonVal::Arr(a) && xs.len() == a.len() && forall|i: int|
        0 <= i < a.len() ==> (match #[trigger] a[i] {
            JsonVal::Str(s) => xs[i]@ == s,
            _ => false,
        })
}

/// The elements of a JSON array of strings.  `None` when `v` is not an
/// array or some element is not a string.
pub(crate) fn string_items(v: &serde_json::Value) -> (r: Option<Vec<String>>)
    ensures
        match r {
            Some(xs) => str_items_match(xs@, json_model(*v)),
            None => !str_items_ok(json_model(*v)),
        },
{
    let ghost m = json_model(*v);
    let len = match crate::json::json_array_len(v) {
        Some(l) => l,
        None => {
            return None;
        },
    };
    let ghost a = m->Arr_0;
    proof {
        assert(m matches JsonVal::Arr(aa) && len == aa.len());
    }
    let mut out: Vec<String> = Vec::new();
    let mut i: usize = 0;
    while i < len
        invariant
            m == json_model(*v),
            m matches JsonVal::Arr(aa) && aa == a,
            len == a.len(),
            0 <= i <= len,
            out@.len() == i,
            forall|j: int|
                0 <= j < i ==> (match #[trigger] a[j] {
                    JsonVal::Str(s) => out@[j]@ == s,
                    _ => false,
                }),
        decreases len - i,
    {
        let s = match crate::json::json_array_get(v, i) {
            Some(e) => match crate::json::json_str(e) {
                Some(s) => s,
                None => {
                    return None;
                },
            },
            None => {
                return None;
            },
        };
        out.push(s);
        i = i + 1;
    }
    Some(out)
}

/// Whether every field of the object `m` is a string.
pub open spec fn str_pairs_ok(m: JsonVal) -> bool {
    m matches JsonVal::Obj(o) && forall|k: Seq<char>|
        #[trigger] o.dom().contains(k) ==> jfield_str(m, k) is Some
}

/// Whether the association list `ps` agrees with the object `m` on every
/// key: looking any key up in `ps` reads exactly the object's string there.
pub open spec fn str_pairs_match(ps: Seq<(String, String)>, m: JsonVal) -> bool {
    str_pairs_ok(m) && forall|k: Seq<char>| #[trigger] spec_assoc_get(ps, k) == jfield_str(m, k)
}

/// All entries of a JSON object whose values are strings, as an association
/// list agreeing with the object on every key.  `None` when `v` is not an
/// object or some value is not a string.
pub(crate) fn object_string_pairs(v: &serde_json::Value) -> (r: Option<Vec<(String, String)>>)
    ensures
        match r {
            Some(ps) => str_pairs_match(ps@, json_model(*v)),
            None => !str_pairs_ok(json_model(*v)),
        },
{
    let ghost m = json_model(*v);
    let keys = match json_object_keys(v) {
        Some(k) => k,
        None => {
            return None;
        },
    };
    let ghost kv = keys@;
    let mut out: Vec<(String, String)> = Vec::new();
    let mut i: usize = 0;
    while i < keys.len()
        invariant
            m == json_model(*v),
            m matches JsonVal::Obj(o),
            keys@ == kv,
            0 <= i <= kv.len(),
            forall|j: int| 0 <= j < kv.len() ==> (m->Obj_0).dom().contains(#[trigger] kv[j]@),
            forall|j1: int, j2: int| 0 <= j1 < j2 < kv.len() ==> kv[j1]@ != kv[j2]@,
            forall|j: int| 0 <= j < i ==> jfield_str(m, #[trigger] kv[j]@) is Some,
            forall|k: Seq<char>|
                #[trigger] spec_assoc_get(out@, k) == (if (exists|j: int|
                    0 <= j < i && #[trigger] kv[j]@ == k) {
                    jfield_str(m, k)
                } else {
                    None
                }),
        decreases keys.len() - i,
    {
        let key = &keys[i];
        let s = match get_string(v, key.as_str()) {
            Some(s) => s,
            None => {
                proof {
                    assert((m->Obj_0).dom().contains(kv[i as int]@));
                    assert(jfield_str(m, kv[i as int]@) is None);
                }
                return None;
            },
        };
        let pair = (key.clone(), s);
        let ghost gp = pair;
        let ghost old_out = out@;
        out.push(pair);
        i = i + 1;
        proof {
            assert forall|k: Seq<char>|
                #[trigger] spec_assoc_get(out@, k) == (if (exists|j: int|
                    0 <= j < i && #[trigger] kv[j]@ == k) {
                    jfield_str(m, k)
                } else {
                    None
                }) by {
                lemma_assoc_get_push(old_out, gp, k);
                assert(out@ =~= old_out.push(gp));
                assert(gp.0@ == kv[i - 1]@);
                if spec_assoc_get(old_out, k) is Some {
                    assert(exists|j: int| 0 <= j < i - 1 && #[trigger] kv[j]@ == k);
                } else if kv[i - 1]@ == k {
                    assert(exists|j: int| 0 <= j < i && #[trigger] kv[j]@ == k);
                    assert(forall|j: int| 0 <= j < i - 1 ==> #[trigger] kv[j]@ != k);
                } else {
                    if exists|j: int| 0 <= j < i && #[trigger] kv[j]@ == k {
                        let j = choose|j: int| 0 <= j < i && #[trigger] kv[j]@ == k;
                        assert(j < i - 1);
                    }
                }
            };
        }
    }
    proof {
        assert(str_pairs_ok(m)) by {
            assert forall|k: Seq<char>| #[trigger] (m->Obj_0).dom().contains(k) implies jfield_str(
                m,
                k,
            ) is Some by {
                let j = choose|j: int| 0 <= j < kv.len() && #[trigger] kv[j]@ == k;
                assert(jfield_str(m, kv[j]@) is Some);
            };
        };
        assert forall|k: Seq<char>| #[trigger] spec_assoc_get(out@, k) == jfield_str(m, k) by {
            if exists|j: int| 0 <= j < kv.len() && #[trigger] kv[j]@ == k {
            } else {
                if (m->Obj_0).dom().contains(k) {
                    assert(exists|j: int| 0 <= j < kv.len() && #[trigger] kv[j]@ == k);
                }
                assert(jfield_str(m, k) is None);
            }
        };
    }
    Some(out)
}

/// Whether every field of the object `m` is an integer.
pub open spec fn i64_pairs_ok(m: JsonVal) -> bool {
    m matches JsonVal::Obj(o) && forall|k: Seq<char>|
        #[trigger] o.dom().contains(k) ==> jfield_i64(m, k) is Some
}

/// Whether the association list `ps` agrees with the object `m` on every
/// key: looking any key up in `ps` reads exactly the object's integer
/// there.
pub open spec fn i64_pairs_match(ps: Seq<(String, i64)>, m: JsonVal) -> bool {
    i64_pairs_ok(m) && forall|k: Seq<char>| #[trigger] spec_assoc_get_i64(ps, k) == jfield_i64(
        m,
        k,
    )
}

/// All entries of a JSON object whose values are integers, as an
/// association list agreeing with the object on every key.  `None` when `v`
/// is not an object or some value is not an integer.
pub(crate) fn object_i64_pairs(v: &serde_json::Value) -> (r: Option<Vec<(String, i64)>>)
    ensures
        match r {
            Some(ps) => i64_pairs_match(ps@, json_model(*v)),
            None => !i64_pairs_ok(json_model(*v)),
        },
{
    let ghost m = json_model(*v);
    let keys = match json_object_keys(v) {
        Some(k) => k,
        None => {
            return None;
        },
    };
    let ghost kv = keys@;
    let mut out: Vec<(String, i64)> = Vec::new();
    let mut i: usize = 0;
    while i < keys.len()
        invariant
            m == json_model(*v),
            m matches JsonVal::Obj(o),
            keys@ == kv,
            0 <= i <= kv.len(),
            forall|j: int| 0 <= j < kv.len() ==> (m->Obj_0).dom().contains(#[trigger] kv[j]@),
            forall|j1: int, j2: int| 0 <= j1 < j2 < kv.len() ==> kv[j1]@ != kv[j2]@,
            forall|j: int| 0 <= j < i ==> jfield_i64(m, #[trigger] kv[j]@) is Some,
            forall|k: Seq<char>|
                #[trigger] spec_assoc_get_i64(out@, k) == (if (exists|j: int|
                    0 <= j < i && #[trigger] kv[j]@ == k) {
                    jfield_i64(m, k)
                } else {
                    None
                }),
        decreases keys.len() - i,
    {
        let key = &keys[i];
        let n = match get_i64(v, key.as_str()) {
            Some(n) => n,
            None => {
                proof {
                    assert((m->Obj_0).dom().contains(kv[i as int]@));
                }
                return None;
            },
        };
        let pair = (key.clone(), n);
        let ghost gp = pair;
        let ghost old_out = out@;
        out.push(pair);
        i = i + 1;
        proof {
            assert forall|k: Seq<char>|
                #[trigger] spec_assoc_get_i64(out@, k) == (if (exists|j: int|
                    0 <= j < i && #[trigger] kv[j]@ == k) {
                    jfield_i64(m, k)
                } else {
                    None
                }) by {
                lemma_assoc_get_i64_push(old_out, gp, k);
                assert(out@ =~= old_out.push(gp));
                assert(gp.0@ == kv[i - 1]@);
                if spec_assoc_get_i64(old_out, k) is Some {
                    assert(exists|j: int| 0 <= j < i - 1 && #[trigger] kv[j]@ == k);
                } else if kv[i - 1]@ == k {
                    assert(exists|j: int| 0 <= j < i && #[trigger] kv[j]@ == k);
                    assert(forall|j: int| 0 <= j < i - 1 ==> #[trigger] kv[j]@ != k);
                } else {
                    if exists|j: int| 0 <= j < i && #[trigger] kv[j]@ == k {
                        let j = choose|j: int| 0 <= j < i && #[trigger] kv[j]@ == k;
                        assert(j < i - 1);
                    }
                }
            };
        }
    }
    proof {
        assert(i64_pairs_ok(m)) by {
            assert forall|k: Seq<char>| #[trigger] (m->Obj_0).dom().contains(k) implies jfield_i64(
                m,
                k,
            ) is Some by {
                let j = choose|j: int| 0 <= j < kv.len() && #[trigger] kv[j]@ == k;
                assert(jfield_i64(m, kv[j]@) is Some);
            };
        };
        assert forall|k: Seq<char>| #[trigger] spec_assoc_get_i64(out@, k) == jfield_i64(
            m,
            k,
        ) by {
            if exists|j: int| 0 <= j < kv.len() && #[trigger] kv[j]@ == k {
            } else {
                if (m->Obj_0).dom().contains(k) {
                    assert(exists|j: int| 0 <= j < kv.len() && #[trigger] kv[j]@ == k);
                }
                assert(jfield_i64(m, k) is None);
            }
        };
    }
    Some(out)
}

/// Whether every field of the object `m` is a number whose text reads as a
/// fixed-point value.
pub open spec fn coord_pairs_ok(m: JsonVal) -> bool {
    m matches JsonVal::Obj(o) && forall|k: Seq<char>|
        #[trigger] o.dom().contains(k) ==> jfield_coord(m, k) is Some
}

/// Whether the association list `ps` agrees with the object `m` on every
/// key: looking any key up in `ps` reads exactly the object's coordinate
/// there.
pub open spec fn coord_pairs_match(ps: Seq<(String, i64)>, m: JsonVal) -> bool {
    coord_pairs_ok(m) && forall|k: Seq<char>| #[trigger] spec_assoc_get_i64(ps, k)
        == jfield_coord(m, k)
}

/// All entries of a JSON object whose values are numbers, as an association
/// list of fixed-point values (units of `10^-9`) agreeing with the object
/// on every key.  `None` when `v` is not an object or some value is not a
/// number that fits.
pub(crate) fn object_coord_pairs(v: &serde_json::Value) -> (r: Option<Vec<(String, i64)>>)
    ensures
        match r {
            Some(ps) => coord_pairs_match(ps@, json_model(*v)),
            None => !coord_pairs_ok(json_model(*v)),
        },
{
    let ghost m = json_model(*v);
    let keys = match json_object_keys(v) {
        Some(k) => k,
        None => {
            return None;
        },
    };
    let ghost kv = keys@;
    let mut out: Vec<(String, i64)> = Vec::new();
    let mut i: usize = 0;
    while i < keys.len()
        invariant
            m == json_model(*v),
            m matches JsonVal::Obj(o),
            keys@ == kv,
            0 <= i <= kv.len(),
            forall|j: int| 0 <= j < kv.len() ==> (m->Obj_0).dom().contains(#[trigger] kv[j]@),
            forall|j1: int, j2: int| 0 <= j1 < j2 < kv.len() ==> kv[j1]@ != kv[j2]@,
            forall|j: int| 0 <= j < i ==> jfield_coord(m, #[trigger] kv[j]@) is Some,
            forall|k: Seq<char>|
                #[trigger] spec_assoc_get_i64(out@, k) == (if (exists|j: int|
                    0 <= j < i && #[trigger] kv[j]@ == k) {
                    jfield_coord(m, k)
                } else {
                    None
                }),
        decreases keys.len() - i,
    {
        let key = &keys[i];
        let c = match get_coord(v, key.as_str()) {
            Some(c) => c,
            None => {
                proof {
                    assert((m->Obj_0).dom().contains(kv[i as int]@));
                }
                return None;
            },
        };
        let pair = (key.clone(), c);
        let ghost gp = pair;
        let ghost old_out = out@;
        out.push(pair);
        i = i + 1;
        proof {
            assert forall|k: Seq<char>|
                #[trigger] spec_assoc_get_i64(out@, k) == (if (exists|j: int|
                    0 <= j < i && #[trigger] kv[j]@ == k) {
                    jfield_coord(m, k)
                } else {
                    None
                }) by {
                lemma_assoc_get_i64_push(old_out, gp, k);
                assert(out@ =~= old_out.push(gp));
                assert(gp.0@ == kv[i - 1]@);
                if spec_assoc_get_i64(old_out, k) is Some {
                    assert(exists|j: int| 0 <= j < i - 1 && #[trigger] kv[j]@ == k);
                } else if kv[i - 1]@ == k {
                    assert(exists|j: int| 0 <= j < i && #[trigger] kv[j]@ == k);
                    assert(forall|j: int| 0 <= j < i - 1 ==> #[trigger] kv[j]@ != k);
                } else {
                    if exists|j: int| 0 <= j < i && #[trigger] kv[j]@ == k {
                        let j = choose|j: int| 0 <= j < i && #[trigger] kv[j]@ == k;
                        assert(j < i - 1);
                    }
                }
            };
        }
    }
    proof {
        assert(coord_pairs_ok(m)) by {
            assert forall|k: Seq<char>|
                #[trigger] (m->Obj_0).dom().contains(k) implies jfield_coord(m, k) is Some by {
                let j = choose|j: int| 0 <= j < kv.len() && #[trigger] kv[j]@ == k;
                assert(jfield_coord(m, kv[j]@) is Some);
            };
        };
        assert forall|k: Seq<char>| #[trigger] spec_assoc_get_i64(out@, k) == jfield_coord(
            m,
            k,
        ) by {
            if exists|j: int| 0 <= j < kv.len() && #[trigger] kv[j]@ == k {
            } else {
                if (m->Obj_0).dom().contains(k) {
                    assert(exists|j: int| 0 <= j < kv.len() && #[trigger] kv[j]@ == k);
                }
                assert(jfield_coord(m, k) is None);
            }
        };
    }
    Some(out)
}

} // verus!
