//! An ordered map keyed by strings: entries are kept sorted by key (in the
//! order of `String`'s `Ord`, which compares characters) with no key twice,
//! so iteration and rendering follow key order.

use crate::text::{chars_of, str_eq};
use vstd::prelude::*;

verus! {

/// Lexicographic order of character sequences (that of `String`'s `Ord`).
pub open spec fn text_lt(a: Seq<char>, b: Seq<char>) -> bool
    decreases a.len(),
{
    if a.len() == 0 {
        b.len() > 0
    } else if b.len() == 0 {
        false
    } else if a[0] != b[0] {
        a[0] < b[0]
    } else {
        text_lt(a.drop_first(), b.drop_first())
    }
}

/// No text is below itself.
pub proof fn lemma_text_lt_irreflexive(a: Seq<char>)
    ensures
        !text_lt(a, a),
    decreases a.len(),
{
    if a.len() > 0 {
        lemma_text_lt_irreflexive(a.drop_first());
    }
}

/// The order is transitive.
pub proof fn lemma_text_lt_transitive(a: Seq<char>, b: Seq<char>, c: Seq<char>)
    requires
        text_lt(a, b),
        text_lt(b, c),
    ensures
        text_lt(a, c),
    decreases a.len(),
{
    if a.len() > 0 && b.len() > 0 && c.len() > 0 {
        if a[0] == b[0] && b[0] == c[0] {
            lemma_text_lt_transitive(a.drop_first(), b.drop_first(), c.drop_first());
        }
    }
}

/// Two different texts are ordered one way or the other.
pub proof fn lemma_text_lt_total(a: Seq<char>, b: Seq<char>)
    requires
        a != b,
    ensures
        text_lt(a, b) || text_lt(b, a),
    decreases a.len(),
{
    if a.len() == 0 && b.len() == 0 {
        assert(a =~= b);
    } else if a.len() > 0 && b.len() > 0 && a[0] == b[0] {
        if a.drop_first() =~= b.drop_first() {
            assert forall|i: int| 0 <= i < a.len() implies a[i] == b[i] by {
                if i > 0 {
                    assert(a[i] == a.drop_first()[i - 1]);
                    assert(b[i] == b.drop_first()[i - 1]);
                }
            }
            assert(a =~= b);
        } else {
            lemma_text_lt_total(a.drop_first(), b.drop_first());
        }
    }
}

/// Whether `a` sorts before `b`.
pub fn text_less(a: &str, b: &str) -> (r: bool)
    ensures
        r == text_lt(a@, b@),
{
    let ac = chars_of(a);
    let bc = chars_of(b);
    let mut i: usize = 0;
    assert(ac@.skip(0) =~= ac@);
    assert(bc@.skip(0) =~= bc@);
    while i < ac.len() && i < bc.len()
        invariant
            ac@ == a@,
            bc@ == b@,
            i <= ac@.len(),
            i <= bc@.len(),
            text_lt(a@, b@) == text_lt(ac@.skip(i as int), bc@.skip(i as int)),
        decreases ac@.len() - i,
    {
        if ac[i] != bc[i] {
            return ac[i] < bc[i];
        }
        assert(ac@.skip(i as int).drop_first() =~= ac@.skip(i + 1));
        assert(bc@.skip(i as int).drop_first() =~= bc@.skip(i + 1));
        i = i + 1;
    }
    i < bc.len()
}

/// Whether the keys of `s` strictly increase.
pub open spec fn keys_sorted<V>(s: Seq<(Seq<char>, V)>) -> bool {
    forall|i: int, j: int| 0 <= i < j < s.len() ==> text_lt(#[trigger] s[i].0, #[trigger] s[j].0)
}

/// The value of the first entry of `s` with key `k`.
pub open spec fn lookup<V>(s: Seq<(Seq<char>, V)>, k: Seq<char>) -> Option<V>
    decreases s.len(),
{
    if s.len() == 0 {
        None
    } else if s[0].0 == k {
        Some(s[0].1)
    } else {
        lookup(s.drop_first(), k)
    }
}

/// `s` with `(k, v)` put in key order, replacing the entry with key `k`.
pub open spec fn sorted_insert<V>(s: Seq<(Seq<char>, V)>, k: Seq<char>, v: V) -> Seq<
    (Seq<char>, V),
>
    decreases s.len(),
{
    if s.len() == 0 {
        seq![(k, v)]
    } else if s[0].0 == k {
        seq![(k, v)] + s.drop_first()
    } else if text_lt(k, s[0].0) {
        seq![(k, v)] + s
    } else {
        seq![s[0]] + sorted_insert(s.drop_first(), k, v)
    }
}

/// `s` without its entries with key `k`.
pub open spec fn without_key<V>(s: Seq<(Seq<char>, V)>, k: Seq<char>) -> Seq<(Seq<char>, V)>
    decreases s.len(),
{
    if s.len() == 0 {
        s
    } else if s[0].0 == k {
        without_key(s.drop_first(), k)
    } else {
        seq![s[0]] + without_key(s.drop_first(), k)
    }
}

/// A read after a write: the key written has the value written, every other
/// key keeps its value.
pub proof fn lemma_lookup_after_insert<V>(s: Seq<(Seq<char>, V)>, k: Seq<char>, v: V, k2: Seq<char>)
    ensures
        lookup(sorted_insert(s, k, v), k2) == if k2 == k {
            Some(v)
        } else {
            lookup(s, k2)
        },
    decreases s.len(),
{
    if s.len() == 0 {
        assert(seq![(k, v)].drop_first() =~= s);
    } else if s[0].0 == k {
        let t = seq![(k, v)] + s.drop_first();
        assert(t[0] == (k, v));
        assert(t.drop_first() =~= s.drop_first());
    } else if text_lt(k, s[0].0) {
        let t = seq![(k, v)] + s;
        assert(t[0] == (k, v));
        assert(t.drop_first() =~= s);
    } else {
        lemma_lookup_after_insert(s.drop_first(), k, v, k2);
        let t = seq![s[0]] + sorted_insert(s.drop_first(), k, v);
        assert(t[0] == s[0]);
        assert(t.drop_first() =~= sorted_insert(s.drop_first(), k, v));
    }
}

/// In a map with sorted keys, the value of an entry's key is that entry's
/// value.
pub proof fn lemma_lookup_at<V>(s: Seq<(Seq<char>, V)>, j: int)
    requires
        keys_sorted(s),
        0 <= j < s.len(),
    ensures
        lookup(s, s[j].0) == Some(s[j].1),
    decreases j,
{
    if j > 0 {
        assert(text_lt(s[0].0, s[j].0));
        lemma_text_lt_irreflexive(s[j].0);
        let t = s.drop_first();
        assert forall|a: int, b: int| 0 <= a < b < t.len() implies text_lt(
            #[trigger] t[a].0,
            #[trigger] t[b].0,
        ) by {
            assert(t[a] == s[a + 1] && t[b] == s[b + 1]);
        }
        lemma_lookup_at(t, j - 1);
    }
}

/// A read after a write, for every key at once.
pub proof fn lemma_lookup_after_insert_all<V>(s: Seq<(Seq<char>, V)>, k: Seq<char>, v: V)
    ensures
        forall|k2: Seq<char>|
            #[trigger] lookup(sorted_insert(s, k, v), k2) == if k2 == k {
                Some(v)
            } else {
                lookup(s, k2)
            },
{
    assert forall|k2: Seq<char>|
        #[trigger] lookup(sorted_insert(s, k, v), k2) == if k2 == k {
            Some(v)
        } else {
            lookup(s, k2)
        } by {
        lemma_lookup_after_insert(s, k, v, k2);
    }
}

/// After a removal the key removed has no value, every other key keeps its
/// value.
pub proof fn lemma_lookup_after_remove<V>(s: Seq<(Seq<char>, V)>, k: Seq<char>, k2: Seq<char>)
    ensures
        lookup(without_key(s, k), k2) == if k2 == k {
            None
        } else {
            lookup(s, k2)
        },
    decreases s.len(),
{
    if s.len() > 0 {
        lemma_lookup_after_remove(s.drop_first(), k, k2);
        if s[0].0 != k {
            assert((seq![s[0]] + without_key(s.drop_first(), k)).drop_first() =~= without_key(
                s.drop_first(),
                k,
            ));
        }
    }
}

proof fn lemma_lookup_skip<V>(s: Seq<(Seq<char>, V)>, k: Seq<char>, i: int)
    requires
        0 <= i <= s.len(),
        forall|j: int| 0 <= j < i ==> s[j].0 != k,
    ensures
        lookup(s, k) == lookup(s.skip(i), k),
    decreases i,
{
    if i > 0 {
        lemma_lookup_skip(s.drop_first(), k, i - 1);
        assert(s.drop_first().skip(i - 1) =~= s.skip(i));
    } else {
        assert(s.skip(0) =~= s);
    }
}

/// A key that no entry has has no value.
pub proof fn lemma_lookup_none<V>(s: Seq<(Seq<char>, V)>, k: Seq<char>)
    requires
        forall|j: int| 0 <= j < s.len() ==> s[j].0 != k,
    ensures
        lookup(s, k) is None,
    decreases s.len(),
{
    if s.len() > 0 {
        lemma_lookup_none(s.drop_first(), k);
    }
}

/// Inserting a key above the first `i` keys keeps those entries in front.
pub proof fn lemma_insert_skip<V>(s: Seq<(Seq<char>, V)>, k: Seq<char>, v: V, i: int)
    requires
        0 <= i <= s.len(),
        forall|j: int| 0 <= j < i ==> text_lt(#[trigger] s[j].0, k),
    ensures
        sorted_insert(s, k, v) == s.take(i) + sorted_insert(s.skip(i), k, v),
    decreases i,
{
    if i > 0 {
        lemma_text_lt_irreflexive(k);
        assert(text_lt(s[0].0, k));
        if text_lt(k, s[0].0) {
            lemma_text_lt_transitive(k, s[0].0, k);
        }
        lemma_insert_skip(s.drop_first(), k, v, i - 1);
        assert(s.drop_first().skip(i - 1) =~= s.skip(i));
        assert(seq![s[0]] + s.drop_first().take(i - 1) =~= s.take(i));
    } else {
        assert(s.skip(0) =~= s);
        assert(s.take(0) + sorted_insert(s, k, v) =~= sorted_insert(s, k, v));
    }
}

proof fn lemma_without_absent<V>(s: Seq<(Seq<char>, V)>, k: Seq<char>)
    requires
        forall|j: int| 0 <= j < s.len() ==> s[j].0 != k,
    ensures
        without_key(s, k) == s,
    decreases s.len(),
{
    if s.len() > 0 {
        lemma_without_absent(s.drop_first(), k);
        assert(seq![s[0]] + s.drop_first() =~= s);
    }
}

proof fn lemma_without_at<V>(s: Seq<(Seq<char>, V)>, k: Seq<char>, i: int)
    requires
        0 <= i < s.len(),
        s[i].0 == k,
        forall|j: int| 0 <= j < s.len() && j != i ==> s[j].0 != k,
    ensures
        without_key(s, k) == s.remove(i),
    decreases i,
{
    if i > 0 {
        lemma_without_at(s.drop_first(), k, i - 1);
        assert(seq![s[0]] + s.drop_first().remove(i - 1) =~= s.remove(i));
    } else {
        lemma_without_absent(s.drop_first(), k);
        assert(s.drop_first() =~= s.remove(0));
    }
}

/// The keys of `v` taken as character sequences.
pub open spec fn entries_view<V>(v: Seq<(String, V)>) -> Seq<(Seq<char>, V)> {
    v.map_values(|e: (String, V)| (e.0@, e.1))
}

/// An ordered map from strings to values.
#[derive(Debug, PartialEq, Eq)]
pub struct StringMap<V> {
    entries: Vec<(String, V)>,
}

impl<V> StringMap<V> {
    /// Keys strictly increase.
    #[verifier::type_invariant]
    closed spec fn sorted(&self) -> bool {
        keys_sorted(self.view())
    }

    /// An empty map.
    pub fn new() -> (r: StringMap<V>)
        ensures
            r@ == Seq::<(Seq<char>, V)>::empty(),
    {
        let r = StringMap { entries: Vec::new() };
        assert(r@ =~= Seq::<(Seq<char>, V)>::empty());
        r
    }

    /// Number of entries.
    pub fn len(&self) -> (r: usize)
        ensures
            r == self@.len(),
            keys_sorted(self@),
    {
        proof {
            use_type_invariant(self);
        }
        self.entries.len()
    }

    /// Whether the map is empty.
    pub fn is_empty(&self) -> (r: bool)
        ensures
            r == (self@.len() == 0),
    {
        self.entries.len() == 0
    }

    /// The key of the entry at `i` (in key order).
    pub fn key_at(&self, i: usize) -> (r: &String)
        requires
            i < self@.len(),
        ensures
            r@ == self@[i as int].0,
    {
        &self.entries[i].0
    }

    /// The value of the entry at `i` (in key order).
    pub fn value_at(&self, i: usize) -> (r: &V)
        requires
            i < self@.len(),
        ensures
            *r == self@[i as int].1,
    {
        &self.entries[i].1
    }

    fn position(&self, key: &str) -> (r: usize)
        ensures
            r <= self@.len(),
            r < self@.len() ==> self@[r as int].0 == key@,
            forall|j: int| 0 <= j < r ==> self@[j].0 != key@,
    {
        let mut i: usize = 0;
        while i < self.entries.len()
            invariant
                i <= self@.len(),
                self@.len() == self.entries@.len(),
                forall|j: int| 0 <= j < i ==> self@[j].0 != key@,
            decreases self@.len() - i,
        {
            if str_eq(self.entries[i].0.as_str(), key) {
                return i;
            }
            i = i + 1;
        }
        i
    }

    /// The value stored under `key`, if any.
    pub fn get(&self, key: &str) -> (r: Option<&V>)
        ensures
            match lookup(self@, key@) {
                Some(v) => r matches Some(x) && *x == v,
                None => r is None,
            },
    {
        let i = self.position(key);
        proof {
            lemma_lookup_skip(self@, key@, i as int);
        }
        if i < self.entries.len() {
            Some(&self.entries[i].1)
        } else {
            None
        }
    }

    /// Whether a value is stored under `key`.
    pub fn contains_key(&self, key: &str) -> (r: bool)
        ensures
            r == lookup(self@, key@) is Some,
    {
        let i = self.position(key);
        proof {
            lemma_lookup_skip(self@, key@, i as int);
        }
        i < self.entries.len()
    }

    /// Stores `value` under `key`, in key order; gives back the value it
    /// replaces.
    pub fn insert(&mut self, key: String, value: V) -> (r: Option<V>)
        ensures
            final(self)@ == sorted_insert(old(self)@, key@, value),
            r == lookup(old(self)@, key@),
    {
        proof {
            use_type_invariant(&*self);
        }
        let ghost s = self@;
        let mut i: usize = 0;
        while i < self.entries.len() && text_less(self.entries[i].0.as_str(), key.as_str())
            invariant
                s == self@,
                keys_sorted(s),
                i <= s.len(),
                self@.len() == self.entries@.len(),
                forall|j: int| 0 <= j < i ==> text_lt(#[trigger] s[j].0, key@),
            decreases s.len() - i,
        {
            i = i + 1;
        }
        proof {
            lemma_insert_skip(s, key@, value, i as int);
            lemma_text_lt_irreflexive(key@);
            assert forall|j: int| 0 <= j < i implies s[j].0 != key@ by {
                assert(text_lt(s[j].0, key@));
            }
            lemma_lookup_skip(s, key@, i as int);
        }
        let mut entries: Vec<(String, V)> = Vec::new();
        std::mem::swap(&mut entries, &mut self.entries);
        assert(entries_view(entries@) == s);
        let ghost kv = key@;
        if i < entries.len() && str_eq(entries[i].0.as_str(), key.as_str()) {
            let old_entry = entries.remove(i);
            entries.insert(i, (key, value));
            let ghost t = entries_view(entries@);
            proof {
                assert(s.skip(i as int)[0] == s[i as int]);
                assert(old_entry.1 == s[i as int].1);
                assert(s.skip(i as int).drop_first() =~= s.skip(i + 1));
                assert(t =~= s.take(i as int) + (seq![(kv, value)] + s.skip(i + 1)));
                assert forall|a: int, b: int| 0 <= a < b < t.len() implies text_lt(
                    #[trigger] t[a].0,
                    #[trigger] t[b].0,
                ) by {
                    if a != i && b != i {
                        assert(t[a] == s[a]);
                        assert(t[b] == s[b]);
                    } else if a == i {
                        assert(t[b] == s[b]);
                        assert(text_lt(s[a].0, s[b].0));
                    } else {
                        assert(t[a] == s[a]);
                        assert(text_lt(s[a].0, s[b].0));
                    }
                }
            }
            self.entries = entries;
            Some(old_entry.1)
        } else {
            entries.insert(i, (key, value));
            let ghost t = entries_view(entries@);
            proof {
                assert forall|j: int| 0 <= j < s.skip(i as int).len() implies s.skip(
                    i as int,
                )[j].0 != kv by {
                    assert(s.skip(i as int)[j] == s[i + j]);
                    if j > 0 {
                        assert(text_lt(s[i as int].0, s[i + j].0));
                        lemma_text_lt_total(s[i as int].0, kv);
                        if text_lt(s[i as int].0, kv) {
                        } else {
                            lemma_text_lt_transitive(kv, s[i as int].0, s[i + j].0);
                            lemma_text_lt_irreflexive(kv);
                        }
                    }
                }
                lemma_lookup_none(s.skip(i as int), kv);
                if i < s.len() {
                    assert(s[i as int].0 != kv);
                    assert(!text_lt(s[i as int].0, kv));
                    lemma_text_lt_total(s[i as int].0, kv);
                    assert(s.skip(i as int)[0] == s[i as int]);
                    assert(t =~= s.take(i as int) + (seq![(kv, value)] + s.skip(i as int)));
                } else {
                    assert(t =~= s.take(i as int) + seq![(kv, value)]);
                    assert(s.skip(i as int).len() == 0);
                }
                assert forall|a: int, b: int| 0 <= a < b < t.len() implies text_lt(
                    #[trigger] t[a].0,
                    #[trigger] t[b].0,
                ) by {
                    if b < i {
                        assert(t[a] == s[a] && t[b] == s[b]);
                    } else if a > i {
                        assert(t[a] == s[a - 1] && t[b] == s[b - 1]);
                    } else if a == i {
                        assert(t[b] == s[b - 1]);
                        if b - 1 > i {
                            assert(text_lt(s[i as int].0, s[b - 1].0));
                            lemma_text_lt_transitive(kv, s[i as int].0, s[b - 1].0);
                        }
                    } else if b == i {
                        assert(t[a] == s[a]);
                    } else {
                        assert(t[a] == s[a]);
                        assert(t[b] == s[b - 1]);
                        assert(text_lt(s[a].0, kv));
                        assert(text_lt(s[a].0, s[b - 1].0));
                    }
                }
            }
            self.entries = entries;
            None
        }
    }

    /// Removes the entry with key `key`; gives back its value.
    pub fn remove(&mut self, key: &str) -> (r: Option<V>)
        ensures
            final(self)@ == without_key(old(self)@, key@),
            r == lookup(old(self)@, key@),
    {
        proof {
            use_type_invariant(&*self);
        }
        let ghost s = self@;
        let i = self.position(key);
        proof {
            lemma_lookup_skip(s, key@, i as int);
        }
        if i < self.entries.len() {
            let mut entries: Vec<(String, V)> = Vec::new();
            std::mem::swap(&mut entries, &mut self.entries);
            assert(entries_view(entries@) == s);
            let e = entries.remove(i);
            let ghost t = entries_view(entries@);
            proof {
                assert forall|j: int| 0 <= j < s.len() && j != i implies s[j].0 != key@ by {
                    if j > i {
                        assert(text_lt(s[i as int].0, s[j].0));
                        lemma_text_lt_irreflexive(key@);
                    }
                }
                lemma_without_at(s, key@, i as int);
                assert(t =~= s.remove(i as int));
                assert forall|a: int, b: int| 0 <= a < b < t.len() implies text_lt(
                    #[trigger] t[a].0,
                    #[trigger] t[b].0,
                ) by {
                    let a2 = if a < i {
                        a
                    } else {
                        a + 1
                    };
                    let b2 = if b < i {
                        b
                    } else {
                        b + 1
                    };
                    assert(t[a] == s[a2] && t[b] == s[b2]);
                }
            }
            self.entries = entries;
            Some(e.1)
        } else {
            proof {
                lemma_without_absent(s, key@);
            }
            None
        }
    }
}

impl<V> StringMap<V> {
    /// Each value of a map is a part of it (for definitions by recursion
    /// through maps).
    pub proof fn lemma_value_decreases(self, i: int)
        requires
            0 <= i < self@.len(),
        ensures
            decreases_to!(self => self@[i].1),
    {
        assert(self@[i].1 == self.entries@[i].1);
        assert(decreases_to!(self => self.entries));
        assert(decreases_to!(self.entries => self.entries@));
        assert(decreases_to!(self.entries@ => self.entries@[i]));
        assert(decreases_to!(self.entries@[i] => self.entries@[i].1));
    }
}

impl<V: Clone> Clone for StringMap<V> {
    /// A copy with the same keys, in the same order, and a clone of each value.
    fn clone(&self) -> (r: Self)
        ensures
            r@.len() == self@.len(),
            forall|i: int|
                0 <= i < self@.len() ==> (#[trigger] r@[i]).0 == self@[i].0 && cloned(
                    self@[i].1,
                    r@[i].1,
                ),
    {
        proof {
            use_type_invariant(self);
        }
        let mut entries: Vec<(String, V)> = Vec::new();
        let mut i: usize = 0;
        while i < self.entries.len()
            invariant
                i <= self@.len(),
                self@.len() == self.entries@.len(),
                keys_sorted(self@),
                entries@.len() == i,
                forall|j: int|
                    0 <= j < i ==> (#[trigger] entries_view(entries@)[j]).0 == self@[j].0 && cloned(
                        self@[j].1,
                        entries_view(entries@)[j].1,
                    ),
            decreases self@.len() - i,
        {
            let k = self.entries[i].0.clone();
            let v = self.entries[i].1.clone();
            let ghost before = entries@;
            entries.push((k, v));
            proof {
                assert(self@[i as int] == (self.entries@[i as int].0@, self.entries@[i as int].1));
                assert(k@ == self@[i as int].0);
                assert(vstd::pervasive::strictly_cloned(self.entries@[i as int].1, v));
                assert(cloned(self@[i as int].1, v));
                assert(entries_view(entries@)[i as int] == (k@, v));
                assert forall|j: int| 0 <= j < i + 1 implies (#[trigger] entries_view(entries@)[j]).0
                    == self@[j].0 && cloned(self@[j].1, entries_view(entries@)[j].1) by {
                    if j < i {
                        assert(entries_view(entries@)[j] == entries_view(before)[j]);
                    }
                }
            }
            i = i + 1;
        }
        let ghost t = entries_view(entries@);
        proof {
            assert forall|a: int, b: int| 0 <= a < b < t.len() implies text_lt(
                #[trigger] t[a].0,
                #[trigger] t[b].0,
            ) by {
                assert(t[a].0 == self@[a].0);
                assert(t[b].0 == self@[b].0);
            }
        }
        StringMap { entries }
    }
}

impl<V> View for StringMap<V> {
    type V = Seq<(Seq<char>, V)>;

    closed spec fn view(&self) -> Seq<(Seq<char>, V)> {
        entries_view(self.entries@)
    }
}

} // verus!
