//! A map from strings to values whose entries are kept in ascending key order,
//! the order in which a `BTreeMap<String, V>` walks its entries.
use vstd::prelude::*;

use crate::text::{lemma_seq_lt_asymmetric, lemma_seq_lt_irreflexive, lemma_seq_lt_total,
    lemma_seq_lt_transitive, seq_lt, str_eq, str_lt,
};

verus! {

/// Entries whose keys strictly ascend.
pub open spec fn sorted_keys<V>(p: Seq<(Seq<char>, V)>) -> bool {
    forall|i: int, j: int| 0 <= i < j < p.len() ==> seq_lt(#[trigger] p[i].0, #[trigger] p[j].0)
}

/// The value stored under `k`.
pub open spec fn lookup<V>(p: Seq<(Seq<char>, V)>, k: Seq<char>) -> Option<V>
    decreases p.len(),
{
    if p.len() == 0 {
        None
    } else if p[0].0 == k {
        Some(p[0].1)
    } else {
        lookup(p.drop_first(), k)
    }
}

/// Whether some entry has key `k`.
pub open spec fn has_key<V>(p: Seq<(Seq<char>, V)>, k: Seq<char>) -> bool {
    exists|i: int| 0 <= i < p.len() && #[trigger] p[i].0 == k
}

/// The entries after storing `v` under `k`: the value of an entry with that key is
/// replaced, or a new entry is placed where the key order puts it.
pub open spec fn sorted_insert<V>(p: Seq<(Seq<char>, V)>, k: Seq<char>, v: V) -> Seq<
    (Seq<char>, V),
>
    decreases p.len(),
{
    if p.len() == 0 {
        seq![(k, v)]
    } else if p[0].0 == k {
        p.update(0, (k, v))
    } else if seq_lt(k, p[0].0) {
        seq![(k, v)] + p
    } else {
        seq![p[0]] + sorted_insert(p.drop_first(), k, v)
    }
}

pub proof fn lemma_lookup_index<V>(p: Seq<(Seq<char>, V)>, k: Seq<char>, i: int)
    requires
        sorted_keys(p),
        0 <= i < p.len(),
        p[i].0 == k,
    ensures
        lookup(p, k) == Some(p[i].1),
    decreases p.len(),
{
    if i > 0 {
        if p[0].0 == k {
            lemma_seq_lt_irreflexive(k);
            assert(seq_lt(p[0].0, p[i].0));
        }
        lemma_lookup_index(p.drop_first(), k, i - 1);
    }
}

pub proof fn lemma_has_key_lookup<V>(p: Seq<(Seq<char>, V)>, k: Seq<char>)
    requires
        sorted_keys(p),
    ensures
        has_key(p, k) <==> lookup(p, k) is Some,
{
    if has_key(p, k) {
        let i = choose|i: int| 0 <= i < p.len() && #[trigger] p[i].0 == k;
        lemma_lookup_index(p, k, i);
    }
    if lookup(p, k) is Some {
        lemma_lookup_some(p, k);
    }
}

pub proof fn lemma_lookup_none<V>(p: Seq<(Seq<char>, V)>, k: Seq<char>)
    requires
        !has_key(p, k),
    ensures
        lookup(p, k) is None,
    decreases p.len(),
{
    if p.len() > 0 {
        assert(p[0].0 != k);
        assert forall|i: int| 0 <= i < p.drop_first().len() implies #[trigger] p.drop_first()[i].0
            != k by {
            assert(p.drop_first()[i] == p[i + 1]);
        }
        lemma_lookup_none(p.drop_first(), k);
    }
}

pub proof fn lemma_lookup_some<V>(p: Seq<(Seq<char>, V)>, k: Seq<char>)
    requires
        lookup(p, k) is Some,
    ensures
        has_key(p, k),
    decreases p.len(),
{
    if p[0].0 != k {
        lemma_lookup_some(p.drop_first(), k);
        let i = choose|i: int| 0 <= i < p.drop_first().len() && #[trigger] p.drop_first()[i].0 == k;
        assert(p[i + 1].0 == k);
    }
}

/// The shape of `sorted_insert`: its entries are those of `p`, with the one for `k`
/// replaced or a new one inserted before the first larger key.
pub proof fn lemma_sorted_insert<V>(p: Seq<(Seq<char>, V)>, k: Seq<char>, v: V)
    requires
        sorted_keys(p),
    ensures
        sorted_keys(sorted_insert(p, k, v)),
        lookup(sorted_insert(p, k, v), k) == Some(v),
        forall|k2: Seq<char>| k2 != k ==> lookup(sorted_insert(p, k, v), k2) == lookup(p, k2),
        has_key(p, k) ==> sorted_insert(p, k, v).len() == p.len(),
        !has_key(p, k) ==> sorted_insert(p, k, v).len() == p.len() + 1,
        forall|e| #[trigger] sorted_insert(p, k, v).contains(e) ==> e == (k, v) || p.contains(e),
    decreases p.len(),
{
    let q = sorted_insert(p, k, v);
    if p.len() == 0 {
        assert(!has_key(p, k));
        assert(q.drop_first() =~= p);
    } else if p[0].0 == k {
        assert(has_key(p, k));
        assert forall|k2: Seq<char>| k2 != k implies lookup(q, k2) == lookup(p, k2) by {
            assert(q.drop_first() =~= p.drop_first());
        }
        assert forall|i: int, j: int| 0 <= i < j < q.len() implies seq_lt(
            #[trigger] q[i].0,
            #[trigger] q[j].0,
        ) by {
            assert(q[i].0 == p[i].0);
            assert(q[j].0 == p[j].0);
        }
        assert forall|e| #[trigger] q.contains(e) implies e == (k, v) || p.contains(e) by {
            let i = choose|i: int| 0 <= i < q.len() && q[i] == e;
            if i > 0 {
                assert(p[i] == e);
            }
        }
    } else if seq_lt(k, p[0].0) {
        assert(q.drop_first() =~= p);
        assert(q[0] == (k, v));
        assert forall|i: int, j: int| 0 <= i < j < q.len() implies seq_lt(
            #[trigger] q[i].0,
            #[trigger] q[j].0,
        ) by {
            if i == 0 {
                if j > 1 {
                    lemma_seq_lt_transitive(k, p[0].0, p[j - 1].0);
                }
            } else {
                assert(q[i] == p[i - 1]);
                assert(q[j] == p[j - 1]);
            }
        }
        assert(!has_key(p, k)) by {
            if has_key(p, k) {
                let i = choose|i: int| 0 <= i < p.len() && #[trigger] p[i].0 == k;
                if i > 0 {
                    lemma_seq_lt_transitive(k, p[0].0, p[i].0);
                }
                lemma_seq_lt_irreflexive(k);
            }
        }
        assert forall|e| #[trigger] q.contains(e) implies e == (k, v) || p.contains(e) by {
            let i = choose|i: int| 0 <= i < q.len() && q[i] == e;
            if i > 0 {
                assert(p[i - 1] == e);
            }
        }
    } else {
        let rest = p.drop_first();
        assert(sorted_keys(rest)) by {
            assert forall|i: int, j: int| 0 <= i < j < rest.len() implies seq_lt(
                #[trigger] rest[i].0,
                #[trigger] rest[j].0,
            ) by {
                assert(rest[i] == p[i + 1]);
                assert(rest[j] == p[j + 1]);
            }
        }
        lemma_sorted_insert(rest, k, v);
        let r = sorted_insert(rest, k, v);
        assert(q == seq![p[0]] + r);
        lemma_seq_lt_total(k, p[0].0);
        assert(seq_lt(p[0].0, k));
        assert forall|i: int, j: int| 0 <= i < j < q.len() implies seq_lt(
            #[trigger] q[i].0,
            #[trigger] q[j].0,
        ) by {
            if i == 0 {
                assert(q[j] == r[j - 1]);
                assert(r.contains(r[j - 1]));
                if r[j - 1] != (k, v) {
                    assert(rest.contains(r[j - 1]));
                    let m = choose|m: int| 0 <= m < rest.len() && rest[m] == r[j - 1];
                    assert(rest[m] == p[m + 1]);
                }
            } else {
                assert(q[i] == r[i - 1]);
                assert(q[j] == r[j - 1]);
            }
        }
        assert(q.drop_first() =~= r);
        assert(q[0] == p[0]);
        assert forall|k2: Seq<char>| k2 != k implies lookup(q, k2) == lookup(p, k2) by {
            if p[0].0 != k2 {
                assert(lookup(q, k2) == lookup(r, k2));
                assert(lookup(p, k2) == lookup(rest, k2));
            }
        }
        assert(has_key(p, k) == has_key(rest, k)) by {
            if has_key(p, k) {
                let i = choose|i: int| 0 <= i < p.len() && #[trigger] p[i].0 == k;
                assert(i > 0);
                assert(rest[i - 1].0 == k);
            }
            if has_key(rest, k) {
                let i = choose|i: int| 0 <= i < rest.len() && #[trigger] rest[i].0 == k;
                assert(p[i + 1].0 == k);
            }
        }
        assert forall|e| #[trigger] q.contains(e) implies e == (k, v) || p.contains(e) by {
            let i = choose|i: int| 0 <= i < q.len() && q[i] == e;
            if i > 0 {
                assert(r.contains(r[i - 1]));
                if r[i - 1] != (k, v) {
                    let m = choose|m: int| 0 <= m < rest.len() && rest[m] == r[i - 1];
                    assert(p[m + 1] == e);
                }
            }
        }
    }
}

/// Law of the map: what `insert` stores under a key is what `get` returns for it, and
/// every other key keeps its value.
pub proof fn law_get_after_insert<V>(p: Seq<(Seq<char>, V)>, k: Seq<char>, v: V, k2: Seq<char>)
    requires
        sorted_keys(p),
    ensures
        lookup(sorted_insert(p, k, v), k2) == (if k2 == k {
            Some(v)
        } else {
            lookup(p, k2)
        }),
{
    lemma_sorted_insert(p, k, v);
}

/// A map from strings to values, kept in ascending key order.
pub struct SortedMap<V> {
    entries: Vec<(String, V)>,
}

impl<V: View> SortedMap<V> {
    /// The entries, in ascending key order.
    pub closed spec fn pairs(&self) -> Seq<(Seq<char>, V::V)> {
        self.entries@.map_values(|e: (String, V)| (e.0@, e.1@))
    }

    pub open spec fn wf(&self) -> bool {
        sorted_keys(self.pairs())
    }

    pub open spec fn spec_get(&self, k: Seq<char>) -> Option<V::V> {
        lookup(self.pairs(), k)
    }

    /// An empty map.
    pub fn new() -> (m: Self)
        ensures
            m.pairs() == Seq::<(Seq<char>, V::V)>::empty(),
            m.wf(),
    {
        let m = SortedMap { entries: Vec::new() };
        assert(m.pairs() =~= Seq::<(Seq<char>, V::V)>::empty());
        m
    }

    pub fn len(&self) -> (n: usize)
        ensures
            n == self.pairs().len(),
    {
        self.entries.len()
    }

    /// The key of the entry at position `i`.
    pub fn key_at(&self, i: usize) -> (k: &String)
        requires
            i < self.pairs().len(),
        ensures
            k@ == self.pairs()[i as int].0,
    {
        &self.entries[i].0
    }

    /// The value of the entry at position `i`.
    pub fn value_at(&self, i: usize) -> (v: &V)
        requires
            i < self.pairs().len(),
        ensures
            v@ == self.pairs()[i as int].1,
    {
        &self.entries[i].1
    }

    /// The position of the entry with key `k`.
    pub fn index_of(&self, k: &str) -> (r: Option<usize>)
        requires
            self.wf(),
        ensures
            match r {
                Some(i) => i < self.pairs().len() && self.pairs()[i as int].0 == k@ && self.spec_get(
                    k@,
                ) == Some(self.pairs()[i as int].1),
                None => !has_key(self.pairs(), k@) && self.spec_get(k@) is None,
            },
    {
        let mut i: usize = 0;
        while i < self.entries.len()
            invariant
                0 <= i <= self.pairs().len(),
                self.pairs().len() == self.entries@.len(),
                self.wf(),
                forall|j: int| 0 <= j < i ==> self.pairs()[j].0 != k@,
            decreases self.entries@.len() - i,
        {
            if str_eq(&self.entries[i].0, k) {
                proof {
                    lemma_lookup_index(self.pairs(), k@, i as int);
                }
                return Some(i);
            }
            i = i + 1;
        }
        proof {
            lemma_lookup_none(self.pairs(), k@);
        }
        None
    }

    /// Whether some entry has key `k`.
    pub fn contains_key(&self, k: &str) -> (r: bool)
        requires
            self.wf(),
        ensures
            r == has_key(self.pairs(), k@),
            r == self.spec_get(k@) is Some,
    {
        self.index_of(k).is_some()
    }

    /// The value stored under `k`.
    pub fn get(&self, k: &str) -> (r: Option<&V>)
        requires
            self.wf(),
        ensures
            match r {
                Some(v) => self.spec_get(k@) == Some(v@),
                None => self.spec_get(k@) is None,
            },
    {
        match self.index_of(k) {
            Some(i) => Some(&self.entries[i].1),
            None => None,
        }
    }

    /// Stores `v` under `k`, replacing the value of an entry with that key.
    pub fn insert(&mut self, k: String, v: V)
        requires
            old(self).wf(),
        ensures
            final(self).wf(),
            final(self).pairs() == sorted_insert(old(self).pairs(), k@, v@),
    {
        let ghost p = self.pairs();
        proof {
            lemma_sorted_insert(p, k@, v@);
        }
        let mut i: usize = 0;
        assert(p.skip(0) =~= p);
        assert(p.take(0) + sorted_insert(p, k@, v@) =~= sorted_insert(p, k@, v@));
        while i < self.entries.len() && str_lt(&self.entries[i].0, &k)
            invariant
                0 <= i <= self.pairs().len(),
                self.pairs() == p,
                self.pairs().len() == self.entries@.len(),
                sorted_keys(p),
                sorted_insert(p, k@, v@) == p.take(i as int) + sorted_insert(p.skip(i as int), k@, v@),
            decreases self.entries@.len() - i,
        {
            proof {
                let s = p.skip(i as int);
                lemma_seq_lt_asymmetric(p[i as int].0, k@);
                assert(s[0] == p[i as int]);
                assert(s.drop_first() =~= p.skip(i + 1));
                assert(p.take(i + 1) =~= p.take(i as int) + seq![p[i as int]]);
            }
            i = i + 1;
        }
        let ghost s = p.skip(i as int);
        if i < self.entries.len() && str_eq(&self.entries[i].0, &k) {
            let old_entry = self.entries.remove(i);
            let ghost kv = (k@, v@);
            self.entries.insert(i, (k, v));
            proof {
                assert(s[0] == p[i as int]);
                assert(self.pairs() =~= p.take(i as int) + s.update(0, kv));
            }
        } else {
            proof {
                if i < p.len() {
                    lemma_seq_lt_total(p[i as int].0, k@);
                    assert(s[0] == p[i as int]);
                }
            }
            let ghost kv = (k@, v@);
            self.entries.insert(i, (k, v));
            proof {
                assert(self.pairs() =~= p.take(i as int) + (seq![kv] + s));
                if i == p.len() {
                    assert(s.len() == 0);
                }
            }
        }
    }

    /// Replaces the value of the entry at position `i`, keeping its key.
    pub fn set_value_at(&mut self, i: usize, v: V)
        requires
            old(self).wf(),
            i < old(self).pairs().len(),
        ensures
            final(self).wf(),
            final(self).pairs() == old(self).pairs().update(
                i as int,
                (old(self).pairs()[i as int].0, v@),
            ),
    {
        let ghost p = self.pairs();
        let ghost vv = v@;
        let (k, _old) = self.entries.remove(i);
        self.entries.insert(i, (k, v));
        proof {
            assert(self.pairs() =~= p.update(i as int, (p[i as int].0, vv)));
            let q = self.pairs();
            assert forall|a: int, b: int| 0 <= a < b < q.len() implies seq_lt(
                #[trigger] q[a].0,
                #[trigger] q[b].0,
            ) by {
                assert(q[a].0 == p[a].0);
                assert(q[b].0 == p[b].0);
            }
        }
    }

    /// Removes the entry at position `i` and hands it back.
    pub fn remove_at(&mut self, i: usize) -> (e: (String, V))
        requires
            old(self).wf(),
            i < old(self).pairs().len(),
        ensures
            final(self).wf(),
            final(self).pairs() == old(self).pairs().remove(i as int),
            (e.0@, e.1@) == old(self).pairs()[i as int],
    {
        let ghost p = self.pairs();
        let e = self.entries.remove(i);
        proof {
            assert(self.pairs() =~= p.remove(i as int));
            let q = self.pairs();
            assert forall|a: int, b: int| 0 <= a < b < q.len() implies seq_lt(
                #[trigger] q[a].0,
                #[trigger] q[b].0,
            ) by {
                let a2 = if a < i { a } else { a + 1 };
                let b2 = if b < i { b } else { b + 1 };
                assert(q[a] == p[a2]);
                assert(q[b] == p[b2]);
            }
        }
        e
    }
}

} // verus!

verus! {

/// The position of the first element of `s` for which `f` holds.
pub open spec fn first_match<T>(s: Seq<T>, f: spec_fn(T) -> bool) -> Option<int>
    decreases s.len(),
{
    if s.len() == 0 {
        None
    } else if f(s[0]) {
        Some(0)
    } else {
        match first_match(s.drop_first(), f) {
            Some(i) => Some(i + 1),
            None => None,
        }
    }
}

pub proof fn lemma_first_match_at<T>(s: Seq<T>, f: spec_fn(T) -> bool, i: int)
    requires
        0 <= i < s.len(),
        f(s[i]),
        forall|j: int| 0 <= j < i ==> !f(#[trigger] s[j]),
    ensures
        first_match(s, f) == Some(i),
    decreases i,
{
    if i > 0 {
        assert(!f(s[0]));
        assert forall|j: int| 0 <= j < i - 1 implies !f(#[trigger] s.drop_first()[j]) by {
            assert(s.drop_first()[j] == s[j + 1]);
        }
        lemma_first_match_at(s.drop_first(), f, i - 1);
    }
}

pub proof fn lemma_first_match_none<T>(s: Seq<T>, f: spec_fn(T) -> bool)
    requires
        forall|j: int| 0 <= j < s.len() ==> !f(#[trigger] s[j]),
    ensures
        first_match(s, f) is None,
    decreases s.len(),
{
    if s.len() > 0 {
        assert(!f(s[0]));
        assert forall|j: int| 0 <= j < s.len() - 1 implies !f(#[trigger] s.drop_first()[j]) by {
            assert(s.drop_first()[j] == s[j + 1]);
        }
        lemma_first_match_none(s.drop_first(), f);
    }
}

pub proof fn lemma_first_match_complete<T>(s: Seq<T>, f: spec_fn(T) -> bool, k: int)
    requires
        0 <= k < s.len(),
        f(s[k]),
    ensures
        first_match(s, f) is Some,
    decreases k,
{
    if k > 0 && !f(s[0]) {
        assert(s.drop_first()[k - 1] == s[k]);
        lemma_first_match_complete(s.drop_first(), f, k - 1);
    }
}

pub proof fn lemma_first_match_some<T>(s: Seq<T>, f: spec_fn(T) -> bool)
    requires
        first_match(s, f) is Some,
    ensures
        ({
            let i = first_match(s, f)->0;
            &&& 0 <= i < s.len()
            &&& f(s[i])
            &&& forall|j: int| 0 <= j < i ==> !f(#[trigger] s[j])
        }),
    decreases s.len(),
{
    if !f(s[0]) {
        lemma_first_match_some(s.drop_first(), f);
        let i = first_match(s.drop_first(), f)->0;
        assert forall|j: int| 0 <= j < i + 1 implies !f(#[trigger] s[j]) by {
            if j > 0 {
                assert(s[j] == s.drop_first()[j - 1]);
            }
        }
    }
}

} // verus!
