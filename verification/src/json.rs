//! JSON values, as envelopes, documents and events carry them.

use crate::util::string_map::{keys_sorted, lemma_insert_skip, sorted_insert, text_lt, StringMap};
use vstd::prelude::*;

verus! {

/// A JSON value. Numbers are kept as their JSON text, so that every number
/// round-trips exactly.
#[derive(Debug, PartialEq)]
pub enum JsonValue {
    Null,
    Bool(bool),
    Number(String),
    String(String),
    Array(Vec<JsonValue>),
    Object(StringMap<JsonValue>),
}

/// A JSON object: members in key order.
pub type JsonObject = StringMap<JsonValue>;

impl JsonValue {
    /// The string this value holds, if it is a string.
    pub fn as_str(&self) -> (r: Option<&str>)
        ensures
            match self {
                JsonValue::String(s) => r matches Some(t) && t@ == s@,
                _ => r is None,
            },
    {
        match self {
            JsonValue::String(s) => Some(s.as_str()),
            _ => None,
        }
    }

    /// The elements of this value, if it is an array.
    pub fn as_array(&self) -> (r: Option<&Vec<JsonValue>>)
        ensures
            match self {
                JsonValue::Array(a) => r == Some(a),
                _ => r is None,
            },
    {
        match self {
            JsonValue::Array(a) => Some(a),
            _ => None,
        }
    }

    /// A number value from an integer.
    pub fn from_i64(n: i64) -> (r: JsonValue)
        ensures
            r matches JsonValue::Number(t) && t@ == crate::text::signed_decimal(n as int),
    {
        JsonValue::Number(crate::text::i64_text(n))
    }
}

/// Whether `b` copies `a` at the top level: the same kind of value, the same
/// scalar, the same number of elements, or the same keys in the same order.
pub open spec fn same_shape(a: JsonValue, b: JsonValue) -> bool {
    match (a, b) {
        (JsonValue::Null, JsonValue::Null) => true,
        (JsonValue::Bool(x), JsonValue::Bool(y)) => x == y,
        (JsonValue::Number(x), JsonValue::Number(y)) => x@ == y@,
        (JsonValue::String(x), JsonValue::String(y)) => x@ == y@,
        (JsonValue::Array(x), JsonValue::Array(y)) => x@.len() == y@.len(),
        (JsonValue::Object(x), JsonValue::Object(y)) => x@.len() == y@.len() && forall|i: int|
            0 <= i < x@.len() ==> (#[trigger] y@[i]).0 == x@[i].0,
        _ => false,
    }
}

/// A deep copy of `v`.
fn clone_json(v: &JsonValue) -> (r: JsonValue)
    ensures
        same_shape(*v, r),
    decreases v,
{
    match v {
        JsonValue::Null => JsonValue::Null,
        JsonValue::Bool(b) => JsonValue::Bool(*b),
        JsonValue::Number(n) => JsonValue::Number(n.clone()),
        JsonValue::String(s) => JsonValue::String(s.clone()),
        JsonValue::Array(a) => {
            let mut out: Vec<JsonValue> = Vec::new();
            let mut i: usize = 0;
            while i < a.len()
                invariant
                    i <= a@.len(),
                    out@.len() == i,
                    *v == JsonValue::Array(*a),
                decreases a@.len() - i,
            {
                proof {
                    assert(decreases_to!(*v => (*v)->Array_0));
                    assert((*v)->Array_0 == *a);
                    assert(decreases_to!(a => a@));
                    assert(decreases_to!(a@ => a@[i as int]));
                }
                out.push(clone_json(&a[i]));
                i = i + 1;
            }
            JsonValue::Array(out)
        },
        JsonValue::Object(m) => {
            let mut out: StringMap<JsonValue> = StringMap::new();
            let n = m.len();
            let mut i: usize = 0;
            while i < n
                invariant
                    i <= n,
                    n == m@.len(),
                    keys_sorted(m@),
                    *v == JsonValue::Object(*m),
                    out@.len() == i,
                    forall|j: int| 0 <= j < i ==> (#[trigger] out@[j]).0 == m@[j].0,
                decreases n - i,
            {
                proof {
                    m.lemma_value_decreases(i as int);
                    assert(decreases_to!(*v => (*v)->Object_0));
                    assert((*v)->Object_0 == *m);
                }
                let k = m.key_at(i).clone();
                let x = clone_json(m.value_at(i));
                let ghost before = out@;
                let ghost gx = x;
                proof {
                    assert forall|j: int| 0 <= j < i implies text_lt(#[trigger] before[j].0, k@) by {
                        assert(text_lt(m@[j].0, m@[i as int].0));
                    }
                    lemma_insert_skip(before, k@, gx, i as int);
                    assert(before.take(i as int) =~= before);
                    assert(before.skip(i as int).len() == 0);
                    assert(sorted_insert(before.skip(i as int), k@, gx) == seq![(k@, gx)]);
                }
                out.insert(k, x);
                proof {
                    assert(out@ =~= before + seq![(k@, gx)]);
                }
                i = i + 1;
            }
            JsonValue::Object(out)
        },
    }
}

impl Clone for JsonValue {
    /// A deep copy.
    fn clone(&self) -> (r: JsonValue)
        ensures
            same_shape(*self, r),
    {
        clone_json(self)
    }
}

} // verus!
