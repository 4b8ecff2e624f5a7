//! A JSON tree of the library's own, filled by serde_json's parser. The
//! decoder works on this tree, so what it reads is visible to the proofs.

use serde_json::Value;
use vstd::prelude::*;

verus! {

/// A JSON value.
#[derive(Debug)]
pub enum Json {
    Null,
    Bool(bool),
    /// A number that serde_json holds as a u64.
    UInt(u64),
    /// A negative number that serde_json holds as an i64.
    Int(i64),
    /// A number that serde_json holds as an f64 (one written with a fraction
    /// or an exponent, or an integer beyond 64 bits), as serde_json prints it.
    Float(String),
    Str(String),
    Array(Vec<Json>),
    /// The members of an object, in serde_json's order of its keys.
    Object(Vec<(String, Json)>),
}

#[verifier::external_type_specification]
#[verifier::external_body]
pub struct ExValue(Value);

/// The tree that serde_json parses from `text`, or `None` where the text is
/// not JSON.
pub uninterp spec fn json_of(text: Seq<char>) -> Option<Json>;

/// Relies on serde_json::from_str and serde_json::Value: parses `text` and
/// copies the tree variant by variant; on a syntax error, gives serde_json's
/// description of it.
#[verifier::external_body]
pub(crate) fn parse_json(text: &str) -> (r: Result<Json, String>)
    ensures
        r is Ok <==> json_of(text@) is Some,
        r matches Ok(j) ==> json_of(text@) == Some(j),
{
    match serde_json::from_str::<Value>(text) {
        Ok(v) => Ok(tree(&v)),
        Err(e) => Err(e.to_string()),
    }
}

/// Relies on serde_json::Value: copies a parsed tree variant by variant.
#[verifier::external_body]
fn tree(v: &Value) -> Json {
    match v {
        Value::Null => Json::Null,
        Value::Bool(b) => Json::Bool(*b),
        Value::Number(n) => match (n.as_u64(), n.as_i64()) {
            (Some(u), _) => Json::UInt(u),
            (None, Some(i)) => Json::Int(i),
            (None, None) => Json::Float(n.to_string()),
        },
        Value::String(s) => Json::Str(s.clone()),
        Value::Array(a) => Json::Array(a.iter().map(tree).collect()),
        Value::Object(m) => Json::Object(m.iter().map(|(k, x)| (k.clone(), tree(x))).collect()),
    }
}

/// The position of the first member of `es` under `key`, or -1.
pub open spec fn entry_position(es: Seq<(String, Json)>, key: Seq<char>) -> int
    decreases es.len(),
{
    if es.len() == 0 {
        -1
    } else if entry_position(es.drop_last(), key) >= 0 {
        entry_position(es.drop_last(), key)
    } else if es.last().0@ == key {
        es.len() - 1
    } else {
        -1
    }
}

pub proof fn lemma_entry_position_bounds(es: Seq<(String, Json)>, key: Seq<char>)
    ensures
        -1 <= entry_position(es, key) < es.len(),
    decreases es.len(),
{
    if es.len() > 0 {
        lemma_entry_position_bounds(es.drop_last(), key);
    }
}

proof fn lemma_entry_position_prefix(es: Seq<(String, Json)>, n: int, key: Seq<char>)
    requires
        0 <= n <= es.len(),
        entry_position(es.take(n), key) >= 0,
    ensures
        entry_position(es, key) == entry_position(es.take(n), key),
    decreases es.len(),
{
    if n == es.len() {
        assert(es.take(n) == es);
    } else {
        assert(es.drop_last().take(n) == es.take(n));
        lemma_entry_position_prefix(es.drop_last(), n, key);
    }
}

/// The member of object `j` under `key`.
pub open spec fn member_of(j: Json, key: Seq<char>) -> Option<Json> {
    match j {
        Json::Object(es) => {
            let p = entry_position(es@, key);
            if p >= 0 {
                Some(es@[p].1)
            } else {
                None
            }
        },
        _ => None,
    }
}

/// The member of object `v` under `key`.
pub fn member<'a>(v: &'a Json, key: &str) -> (r: Option<&'a Json>)
    ensures
        match r {
            Some(m) => member_of(*v, key@) == Some(*m),
            None => member_of(*v, key@) is None,
        },
{
    match v {
        Json::Object(es) => {
            let k = key.to_owned();
            let mut i: usize = 0;
            while i < es.len()
                invariant
                    i <= es@.len(),
                    k@ == key@,
                    *v == Json::Object(*es),
                    entry_position(es@.take(i as int), key@) == -1,
                decreases es.len() - i,
            {
                assert(es@.take(i + 1).drop_last() == es@.take(i as int));
                if es[i].0 == k {
                    assert(es@.take(i + 1).last() == es@[i as int]);
                    assert(entry_position(es@.take(i + 1), key@) == i);
                    proof {
                        lemma_entry_position_prefix(es@, i + 1, key@);
                    }
                    assert(member_of(*v, key@) == Some(es@[i as int].1));
                    return Some(&es[i].1);
                }
                i = i + 1;
            }
            assert(es@.take(es.len() as int) == es@);
            assert(*v == Json::Object(*es));
            None
        },
        _ => None,
    }
}

} // verus!
