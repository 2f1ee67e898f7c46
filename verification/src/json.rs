//! JSON values as the hub handles them: tool arguments, tool payloads and schemas.
use vstd::prelude::*;

use crate::smap::{first_match, lemma_first_match_at, lemma_first_match_none};
use crate::text::str_eq;

verus! {

/// A JSON number: a negative or a non-negative integer, or a finite decimal literal that
/// is neither (kept as its text).
pub enum JsonNumber {
    NegInt(i64),
    PosInt(u64),
    Float(String),
}

pub enum NumberView {
    Int(int),
    Float(Seq<char>),
}

impl View for JsonNumber {
    type V = NumberView;

    open spec fn view(&self) -> NumberView {
        match self {
            JsonNumber::NegInt(i) => NumberView::Int(*i as int),
            JsonNumber::PosInt(u) => NumberView::Int(*u as int),
            JsonNumber::Float(t) => NumberView::Float(t@),
        }
    }
}

/// A JSON value; an object is a list of entries with distinct keys.
pub enum JsonValue {
    Null,
    Bool(bool),
    Number(JsonNumber),
    String(String),
    Array(Vec<JsonValue>),
    Object(Vec<(String, JsonValue)>),
}

pub enum JsonView {
    Null,
    Bool(bool),
    Number(NumberView),
    Str(Seq<char>),
    Array(Seq<JsonView>),
    Object(Seq<(Seq<char>, JsonView)>),
}

impl View for JsonValue {
    type V = JsonView;

    open spec fn view(&self) -> JsonView {
        json_view(*self)
    }
}

/// The abstract value of a JSON value.
pub open spec fn json_view(v: JsonValue) -> JsonView
    decreases v, 1nat,
{
    match v {
        JsonValue::Null => JsonView::Null,
        JsonValue::Bool(b) => JsonView::Bool(b),
        JsonValue::Number(n) => JsonView::Number(n@),
        JsonValue::String(s) => JsonView::Str(s@),
        JsonValue::Array(a) => JsonView::Array(values_view(a@)),
        JsonValue::Object(m) => JsonView::Object(entries_view(m@)),
    }
}

pub open spec fn entries_view(m: Seq<(String, JsonValue)>) -> Seq<(Seq<char>, JsonView)>
    decreases m, 0nat,
{
    Seq::new(
        m.len(),
        |i: int|
            if 0 <= i < m.len() {
                (m[i].0@, json_view(m[i].1))
            } else {
                (Seq::empty(), JsonView::Null)
            },
    )
}

pub open spec fn values_view(v: Seq<JsonValue>) -> Seq<JsonView>
    decreases v, 0nat,
{
    Seq::new(
        v.len(),
        |i: int|
            if 0 <= i < v.len() {
                json_view(v[i])
            } else {
                JsonView::Null
            },
    )
}

pub proof fn lemma_view_unfold(v: JsonValue)
    ensures
        v matches JsonValue::Array(a) ==> v@ == JsonView::Array(values_view(a@)),
        v matches JsonValue::Object(m) ==> v@ == JsonView::Object(entries_view(m@)),
{
}

pub open spec fn key_pred(k: Seq<char>) -> spec_fn((Seq<char>, JsonView)) -> bool {
    |e: (Seq<char>, JsonView)| e.0 == k
}

/// The entries with `k` mapped to `v`: the value of an entry with that key is replaced in
/// place, or the entry is appended.
pub open spec fn obj_insert(m: Seq<(Seq<char>, JsonView)>, k: Seq<char>, v: JsonView) -> Seq<
    (Seq<char>, JsonView),
> {
    match first_match(m, key_pred(k)) {
        Some(i) => m.update(i, (k, v)),
        None => m.push((k, v)),
    }
}

/// The value of key `k` in an object.
pub open spec fn obj_get(m: Seq<(Seq<char>, JsonView)>, k: Seq<char>) -> Option<JsonView> {
    match first_match(m, key_pred(k)) {
        Some(i) => Some(m[i].1),
        None => None,
    }
}

/// `Value::get` with a key: the member of an object, nothing for other values.
pub open spec fn spec_member(v: JsonView, k: Seq<char>) -> Option<JsonView> {
    match v {
        JsonView::Object(m) => obj_get(m, k),
        _ => None,
    }
}

/// `Value::as_u64`.
pub open spec fn spec_as_u64(v: JsonView) -> Option<int> {
    match v {
        JsonView::Number(NumberView::Int(i)) => if 0 <= i {
            Some(i)
        } else {
            None
        },
        _ => None,
    }
}

/// `Value::as_bool`.
pub open spec fn spec_as_bool(v: JsonView) -> Option<bool> {
    match v {
        JsonView::Bool(b) => Some(b),
        _ => None,
    }
}

/// `Value::as_str`.
pub open spec fn spec_as_str(v: JsonView) -> Option<Seq<char>> {
    match v {
        JsonView::Str(s) => Some(s),
        _ => None,
    }
}

/// The position of the entry with key `k`.
pub fn find_key(m: &Vec<(String, JsonValue)>, k: &str) -> (r: Option<usize>)
    ensures
        match r {
            Some(i) => i < m@.len() && first_match(entries_view(m@), key_pred(k@)) == Some(i as int),
            None => first_match(entries_view(m@), key_pred(k@)) is None,
        },
{
    let mut i: usize = 0;
    while i < m.len()
        invariant
            0 <= i <= m@.len(),
            forall|j: int| 0 <= j < i ==> !key_pred(k@)(#[trigger] entries_view(m@)[j]),
        decreases m@.len() - i,
    {
        if str_eq(&m[i].0, k) {
            proof {
                lemma_first_match_at(entries_view(m@), key_pred(k@), i as int);
            }
            return Some(i);
        }
        i = i + 1;
    }
    proof {
        lemma_first_match_none(entries_view(m@), key_pred(k@));
    }
    None
}

/// Maps `k` to `v` in the object entries `m`.
pub fn object_insert(m: &mut Vec<(String, JsonValue)>, k: String, v: JsonValue)
    ensures
        entries_view(final(m)@) == obj_insert(entries_view(old(m)@), k@, v@),
{
    let ghost kv = (k@, v@);
    match find_key(m, &k) {
        Some(i) => {
            let _old = m.remove(i);
            m.insert(i, (k, v));
            assert(entries_view(m@) =~= entries_view(old(m)@).update(i as int, kv));
        },
        None => {
            m.push((k, v));
            assert(entries_view(m@) =~= entries_view(old(m)@).push(kv));
        },
    }
}

impl JsonValue {
    /// The member `key` of an object (`Value::get`).
    pub fn get(&self, key: &str) -> (r: Option<&JsonValue>)
        ensures
            match r {
                Some(v) => spec_member(self@, key@) == Some(v@),
                None => spec_member(self@, key@) is None,
            },
    {
        match self {
            JsonValue::Object(m) => {
                proof {
                    lemma_view_unfold(*self);
                }
                match find_key(m, key) {
                    Some(i) => Some(&m[i].1),
                    None => None,
                }
            },
            _ => None,
        }
    }

    /// `Value::as_u64`.
    pub fn as_u64(&self) -> (r: Option<u64>)
        ensures
            match r {
                Some(u) => spec_as_u64(self@) == Some(u as int),
                None => spec_as_u64(self@) is None,
            },
    {
        match self {
            JsonValue::Number(JsonNumber::PosInt(u)) => Some(*u),
            JsonValue::Number(JsonNumber::NegInt(i)) => {
                if *i >= 0 {
                    Some(*i as u64)
                } else {
                    None
                }
            },
            _ => None,
        }
    }

    /// `Value::as_bool`.
    pub fn as_bool(&self) -> (r: Option<bool>)
        ensures
            r == spec_as_bool(self@),
    {
        match self {
            JsonValue::Bool(b) => Some(*b),
            _ => None,
        }
    }

    /// `Value::as_str`.
    pub fn as_str(&self) -> (r: Option<&str>)
        ensures
            match r {
                Some(s) => spec_as_str(self@) == Some(s@),
                None => spec_as_str(self@) is None,
            },
    {
        match self {
            JsonValue::String(s) => Some(s.as_str()),
            _ => None,
        }
    }

    /// `Value::is_array`.
    pub fn is_array(&self) -> (r: bool)
        ensures
            r == (self@ is Array),
    {
        match self {
            JsonValue::Array(_) => true,
            _ => false,
        }
    }

    /// `Value::is_object`.
    pub fn is_object(&self) -> (r: bool)
        ensures
            r == (self@ is Object),
    {
        match self {
            JsonValue::Object(_) => true,
            _ => false,
        }
    }

    /// `Value::is_null`.
    pub fn is_null(&self) -> (r: bool)
        ensures
            r == (self@ is Null),
    {
        match self {
            JsonValue::Null => true,
            _ => false,
        }
    }
}

impl Clone for JsonNumber {
    fn clone(&self) -> (r: Self)
        ensures
            r@ == self@,
    {
        match self {
            JsonNumber::NegInt(i) => JsonNumber::NegInt(*i),
            JsonNumber::PosInt(u) => JsonNumber::PosInt(*u),
            JsonNumber::Float(t) => JsonNumber::Float(t.clone()),
        }
    }
}

/// A copy of a JSON value.
#[verifier::loop_isolation(false)]
pub fn clone_json(v: &JsonValue) -> (r: JsonValue)
    ensures
        r@ == v@,
    decreases v,
{
    match v {
        JsonValue::Null => JsonValue::Null,
        JsonValue::Bool(b) => JsonValue::Bool(*b),
        JsonValue::Number(n) => JsonValue::Number(n.clone()),
        JsonValue::String(s) => JsonValue::String(s.clone()),
        JsonValue::Array(a) => {
            let mut out: Vec<JsonValue> = Vec::new();
            let mut i: usize = 0;
            while i < a.len()
                invariant
                    0 <= i <= a@.len(),
                    out@.len() == i,
                    forall|j: int| 0 <= j < i ==> (#[trigger] out@[j])@ == a@[j]@,
                decreases a@.len() - i,
            {
                proof {
                    vstd::std_specs::vec::axiom_vec_index_decreases(*a, i as int);
                }
                out.push(clone_json(&a[i]));
                i = i + 1;
            }
            let r = JsonValue::Array(out);
            proof {
                lemma_view_unfold(r);
                lemma_view_unfold(*v);
                assert(values_view(out@) =~= values_view(a@));
            }
            r
        },
        JsonValue::Object(m) => {
            let mut out: Vec<(String, JsonValue)> = Vec::new();
            let mut i: usize = 0;
            while i < m.len()
                invariant
                    0 <= i <= m@.len(),
                    out@.len() == i,
                    forall|j: int|
                        0 <= j < i ==> (#[trigger] out@[j]).0@ == m@[j].0@ && out@[j].1@ == m@[j].1@,
                decreases m@.len() - i,
            {
                proof {
                    vstd::std_specs::vec::axiom_vec_index_decreases(*m, i as int);
                }
                out.push((m[i].0.clone(), clone_json(&m[i].1)));
                i = i + 1;
            }
            let r = JsonValue::Object(out);
            proof {
                lemma_view_unfold(r);
                lemma_view_unfold(*v);
                assert(entries_view(out@) =~= entries_view(m@));
            }
            r
        },
    }
}

} // verus!
