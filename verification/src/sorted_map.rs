//! A map from strings to strings that keeps its entries in key order, each
//! key once, as a `BTreeMap<String, String>` iterates them.

use vstd::prelude::*;
use crate::text::{lemma_str_lt_total, lemma_str_lt_transitive, str_eq, str_less, str_lt};

verus! {

/// Keys in strictly increasing order.
pub open spec fn keys_sorted(s: Seq<(Seq<char>, Seq<char>)>) -> bool {
    forall|i: int, j: int| 0 <= i < j < s.len() ==> str_lt(#[trigger] s[i].0, #[trigger] s[j].0)
}

/// The place of `k` among sorted entries: the number of keys before it.
pub open spec fn insert_pos(s: Seq<(Seq<char>, Seq<char>)>, k: Seq<char>) -> nat
    decreases s.len(),
{
    if s.len() == 0 {
        0
    } else if str_lt(s[0].0, k) {
        1 + insert_pos(s.drop_first(), k)
    } else {
        0
    }
}

/// Sorted entries after setting `k` to `v`: the entry of `k` replaced where
/// there is one, else a new entry at its place.
pub open spec fn sorted_insert(s: Seq<(Seq<char>, Seq<char>)>, k: Seq<char>, v: Seq<char>) -> Seq<(Seq<char>, Seq<char>)> {
    let p = insert_pos(s, k) as int;
    if p < s.len() && s[p].0 == k {
        s.update(p, (k, v))
    } else {
        s.insert(p, (k, v))
    }
}

/// Entries keyed by strings, in increasing key order, each key once.
#[derive(Debug)]
pub struct StringMap {
    entries: Vec<(String, String)>,
}

/// The text of string pairs.
pub open spec fn pair_texts(v: Seq<(String, String)>) -> Seq<(Seq<char>, Seq<char>)> {
    v.map_values(|p: (String, String)| (p.0@, p.1@))
}

impl StringMap {
    /// The entries in key order.
    pub closed spec fn entries_view(&self) -> Seq<(Seq<char>, Seq<char>)> {
        pair_texts(self.entries@)
    }

    /// The empty map.
    pub fn new() -> (m: Self)
        ensures
            m.entries_view() == Seq::<(Seq<char>, Seq<char>)>::empty(),
    {
        let m = StringMap { entries: Vec::new() };
        proof {
            assert(m.entries_view() =~= Seq::<(Seq<char>, Seq<char>)>::empty());
        }
        m
    }

    /// The number of entries.
    pub fn len(&self) -> (n: usize)
        ensures
            n == self.entries_view().len(),
    {
        self.entries.len()
    }

    /// The entries in key order.
    pub fn entries(&self) -> (e: &Vec<(String, String)>)
        ensures
            pair_texts(e@) == self.entries_view(),
    {
        &self.entries
    }

    /// Sets `key` to `value`, replacing the value it had.
    pub fn insert(&mut self, key: String, value: String)
        requires
            keys_sorted(old(self).entries_view()),
        ensures
            keys_sorted(final(self).entries_view()),
            final(self).entries_view() == sorted_insert(old(self).entries_view(), key@, value@),
    {
        let ghost s = self.entries_view();
        let mut p: usize = 0;
        while p < self.entries.len() && str_less(self.entries[p].0.as_str(), key.as_str())
            invariant
                p <= self.entries@.len(),
                pair_texts(self.entries@) == s,
                forall|k: int| 0 <= k < p ==> str_lt(#[trigger] s[k].0, key@),
            decreases self.entries@.len() - p,
        {
            p += 1;
        }
        proof {
            lemma_insert_pos(s, key@, p as int);
        }
        if p < self.entries.len() && str_eq(self.entries[p].0.as_str(), key.as_str()) {
            let ghost kv = (key@, value@);
            self.entries.set(p, (key, value));
            proof {
                assert(self.entries_view() =~= s.update(p as int, kv));
                assert forall|i: int, j: int| 0 <= i < j < s.len() implies str_lt(
                    #[trigger] s.update(p as int, kv)[i].0,
                    #[trigger] s.update(p as int, kv)[j].0,
                ) by {
                    assert(str_lt(s[i].0, s[j].0));
                }
            }
        } else {
            let ghost kv = (key@, value@);
            proof {
                if p < s.len() {
                    lemma_str_lt_total(s[p as int].0, key@);
                }
                lemma_insert_sorted(s, p as int, kv);
            }
            self.entries.insert(p, (key, value));
            proof {
                assert(self.entries_view() =~= s.insert(p as int, kv));
            }
        }
    }
}

/// `insert_pos` is the number of keys before the key.
proof fn lemma_insert_pos(s: Seq<(Seq<char>, Seq<char>)>, k: Seq<char>, p: int)
    requires
        0 <= p <= s.len(),
        forall|i: int| 0 <= i < p ==> str_lt(#[trigger] s[i].0, k),
        p < s.len() ==> !str_lt(s[p].0, k),
    ensures
        insert_pos(s, k) == p,
    decreases s.len(),
{
    if s.len() > 0 && p > 0 {
        let t = s.drop_first();
        assert forall|i: int| 0 <= i < p - 1 implies str_lt(#[trigger] t[i].0, k) by {
            assert(t[i] == s[i + 1]);
        }
        if p - 1 < t.len() {
            assert(t[p - 1] == s[p]);
        }
        lemma_insert_pos(t, k, p - 1);
    }
}

/// A new key inserted at its place keeps the keys in order.
proof fn lemma_insert_sorted(s: Seq<(Seq<char>, Seq<char>)>, p: int, kv: (Seq<char>, Seq<char>))
    requires
        keys_sorted(s),
        0 <= p <= s.len(),
        forall|k: int| 0 <= k < p ==> str_lt(#[trigger] s[k].0, kv.0),
        p < s.len() ==> str_lt(kv.0, s[p].0),
    ensures
        keys_sorted(s.insert(p, kv)),
{
    let t = s.insert(p, kv);
    s.insert_ensures(p, kv);
    assert forall|i: int, j: int| 0 <= i < j < t.len() implies str_lt(#[trigger] t[i].0, #[trigger] t[j].0) by {
        if j < p {
            assert(t[i] == s[i] && t[j] == s[j]);
        } else if j == p {
            assert(t[i] == s[i]);
        } else if i < p {
            assert(t[i] == s[i] && t[j] == s[j - 1]);
            if j - 1 > p {
                lemma_str_lt_transitive(kv.0, s[p].0, s[j - 1].0);
            }
            lemma_str_lt_transitive(s[i].0, kv.0, s[j - 1].0);
        } else if i == p {
            assert(t[j] == s[j - 1]);
            if j - 1 > p {
                lemma_str_lt_transitive(kv.0, s[p].0, s[j - 1].0);
            }
        } else {
            assert(t[i] == s[i - 1] && t[j] == s[j - 1]);
        }
    }
}

/// Keys in strictly increasing order.
pub open spec fn keys_increasing<V>(s: Seq<(Seq<char>, V)>) -> bool {
    forall|i: int, j: int| 0 <= i < j < s.len() ==> str_lt(#[trigger] s[i].0, #[trigger] s[j].0)
}

/// The place of `k` among sorted entries: the number of keys before it.
pub open spec fn key_pos<V>(s: Seq<(Seq<char>, V)>, k: Seq<char>) -> nat
    decreases s.len(),
{
    if s.len() == 0 {
        0
    } else if str_lt(s[0].0, k) {
        1 + key_pos(s.drop_first(), k)
    } else {
        0
    }
}

/// Sorted entries after setting `k` to `v` (see `sorted_insert`).
pub open spec fn keyed_insert<V>(s: Seq<(Seq<char>, V)>, k: Seq<char>, v: V) -> Seq<(Seq<char>, V)> {
    let p = key_pos(s, k) as int;
    if p < s.len() && s[p].0 == k {
        s.update(p, (k, v))
    } else {
        s.insert(p, (k, v))
    }
}

/// The value of `k` among entries, if any.
pub open spec fn lookup<V>(s: Seq<(Seq<char>, V)>, k: Seq<char>) -> Option<V>
    decreases s.len(),
{
    if s.len() == 0 {
        None
    } else if s.last().0 == k {
        Some(s.last().1)
    } else {
        lookup(s.drop_last(), k)
    }
}

/// Entries keyed by strings, in increasing key order, each key once.
#[derive(Debug)]
pub struct KeyedMap<V> {
    entries: Vec<(String, V)>,
}

/// The keys of entries as text, with their values.
pub open spec fn keyed_view<V>(v: Seq<(String, V)>) -> Seq<(Seq<char>, V)> {
    v.map_values(|p: (String, V)| (p.0@, p.1))
}

impl<V> KeyedMap<V> {
    /// The entries in key order.
    pub closed spec fn view_entries(&self) -> Seq<(Seq<char>, V)> {
        keyed_view(self.entries@)
    }

    /// The empty map.
    pub fn new() -> (m: Self)
        ensures
            m.view_entries() == Seq::<(Seq<char>, V)>::empty(),
    {
        let m = KeyedMap { entries: Vec::new() };
        proof {
            assert(m.view_entries() =~= Seq::<(Seq<char>, V)>::empty());
        }
        m
    }

    /// The number of entries.
    pub fn len(&self) -> (n: usize)
        ensures
            n == self.view_entries().len(),
    {
        self.entries.len()
    }

    /// The entries in key order.
    pub fn entries(&self) -> (e: &Vec<(String, V)>)
        ensures
            keyed_view(e@) == self.view_entries(),
    {
        &self.entries
    }

    /// The value of `key`, if any.
    pub fn get(&self, key: &str) -> (r: Option<&V>)
        ensures
            r matches Some(v) ==> lookup(self.view_entries(), key@) == Some(*v),
            r is None ==> lookup(self.view_entries(), key@) is None,
    {
        let mut i = self.entries.len();
        let ghost s = self.view_entries();
        proof {
            assert(s.take(s.len() as int) =~= s);
        }
        while i > 0
            invariant
                i <= self.entries@.len(),
                s == keyed_view(self.entries@),
                lookup(s, key@) == lookup(s.take(i as int), key@),
            decreases i,
        {
            proof {
                assert(s.take(i as int).drop_last() =~= s.take(i - 1));
                assert(s.take(i as int).last() == s[i - 1]);
            }
            if str_eq(self.entries[i - 1].0.as_str(), key) {
                return Some(&self.entries[i - 1].1);
            }
            i -= 1;
        }
        None
    }

    /// Removes every entry.
    pub fn clear(&mut self)
        ensures
            final(self).view_entries() == Seq::<(Seq<char>, V)>::empty(),
    {
        self.entries.clear();
        proof {
            assert(self.view_entries() =~= Seq::<(Seq<char>, V)>::empty());
        }
    }

    /// Sets `key` to `value`, replacing the value it had.
    pub fn insert(&mut self, key: String, value: V)
        requires
            keys_increasing(old(self).view_entries()),
        ensures
            keys_increasing(final(self).view_entries()),
            final(self).view_entries() == keyed_insert(old(self).view_entries(), key@, value),
    {
        let ghost s = self.view_entries();
        let mut p: usize = 0;
        while p < self.entries.len() && str_less(self.entries[p].0.as_str(), key.as_str())
            invariant
                p <= self.entries@.len(),
                keyed_view(self.entries@) == s,
                forall|k: int| 0 <= k < p ==> str_lt(#[trigger] s[k].0, key@),
            decreases self.entries@.len() - p,
        {
            p += 1;
        }
        proof {
            lemma_key_pos(s, key@, p as int);
        }
        let ghost kv = (key@, value);
        if p < self.entries.len() && str_eq(self.entries[p].0.as_str(), key.as_str()) {
            self.entries.set(p, (key, value));
            proof {
                assert(self.view_entries() =~= s.update(p as int, kv));
                assert forall|i: int, j: int| 0 <= i < j < s.len() implies str_lt(
                    #[trigger] s.update(p as int, kv)[i].0,
                    #[trigger] s.update(p as int, kv)[j].0,
                ) by {
                    assert(str_lt(s[i].0, s[j].0));
                }
            }
        } else {
            proof {
                if p < s.len() {
                    lemma_str_lt_total(s[p as int].0, key@);
                }
                lemma_keyed_insert_sorted(s, p as int, kv);
            }
            self.entries.insert(p, (key, value));
            proof {
                assert(self.view_entries() =~= s.insert(p as int, kv));
            }
        }
    }
}

proof fn lemma_key_pos<V>(s: Seq<(Seq<char>, V)>, k: Seq<char>, p: int)
    requires
        0 <= p <= s.len(),
        forall|i: int| 0 <= i < p ==> str_lt(#[trigger] s[i].0, k),
        p < s.len() ==> !str_lt(s[p].0, k),
    ensures
        key_pos(s, k) == p,
    decreases s.len(),
{
    if s.len() > 0 && p > 0 {
        let t = s.drop_first();
        assert forall|i: int| 0 <= i < p - 1 implies str_lt(#[trigger] t[i].0, k) by {
            assert(t[i] == s[i + 1]);
        }
        if p - 1 < t.len() {
            assert(t[p - 1] == s[p]);
        }
        lemma_key_pos(t, k, p - 1);
    }
}

proof fn lemma_keyed_insert_sorted<V>(s: Seq<(Seq<char>, V)>, p: int, kv: (Seq<char>, V))
    requires
        keys_increasing(s),
        0 <= p <= s.len(),
        forall|k: int| 0 <= k < p ==> str_lt(#[trigger] s[k].0, kv.0),
        p < s.len() ==> str_lt(kv.0, s[p].0),
    ensures
        keys_increasing(s.insert(p, kv)),
{
    let t = s.insert(p, kv);
    s.insert_ensures(p, kv);
    assert forall|i: int, j: int| 0 <= i < j < t.len() implies str_lt(#[trigger] t[i].0, #[trigger] t[j].0) by {
        if j < p {
            assert(t[i] == s[i] && t[j] == s[j]);
        } else if j == p {
            assert(t[i] == s[i]);
        } else if i < p {
            assert(t[i] == s[i] && t[j] == s[j - 1]);
            if j - 1 > p {
                lemma_str_lt_transitive(kv.0, s[p].0, s[j - 1].0);
            }
            lemma_str_lt_transitive(s[i].0, kv.0, s[j - 1].0);
        } else if i == p {
            assert(t[j] == s[j - 1]);
            if j - 1 > p {
                lemma_str_lt_transitive(kv.0, s[p].0, s[j - 1].0);
            }
        } else {
            assert(t[i] == s[i - 1] && t[j] == s[j - 1]);
        }
    }
}

/// After setting a key, looking it up gives the value set; other keys keep
/// theirs.
pub proof fn lemma_keyed_insert_lookup<V>(s: Seq<(Seq<char>, V)>, k: Seq<char>, v: V, q: Seq<char>)
    requires
        keys_increasing(s),
    ensures
        lookup(keyed_insert(s, k, v), q) == if q == k {
            Some(v)
        } else {
            lookup(s, q)
        },
{
    let p = key_pos(s, k) as int;
    lemma_key_pos_bounds(s, k);
    lemma_lookup_index(s, q);
    let t = keyed_insert(s, k, v);
    if p < s.len() && s[p].0 == k {
        lemma_sorted_keys_distinct(s);
        assert(keys_increasing(t)) by {
            assert forall|i: int, j: int| 0 <= i < j < t.len() implies str_lt(#[trigger] t[i].0, #[trigger] t[j].0) by {
                assert(str_lt(s[i].0, s[j].0));
            }
        }
    } else {
        lemma_str_lt_total(k, k);
        if p < s.len() {
            lemma_str_lt_total(s[p].0, k);
        }
        lemma_key_pos_props(s, k);
        lemma_keyed_insert_sorted(s, p, (k, v));
    }
    lemma_lookup_index(t, q);
    lemma_sorted_keys_distinct(t);
    lemma_sorted_keys_distinct(s);
    s.insert_ensures(p, (k, v));
    if q == k {
        assert(t[p].0 == k);
    } else {
        if lookup(s, q) is Some {
            let i = choose|i: int| 0 <= i < s.len() && s[i].0 == q;
            if p < s.len() && s[p].0 == k {
                assert(t[i] == s[i]);
            } else if i < p {
                assert(t[i] == s[i]);
            } else {
                assert(t[i + 1] == s[i]);
            }
        } else {
            if lookup(t, q) is Some {
                let i = choose|i: int| 0 <= i < t.len() && t[i].0 == q;
                if p < s.len() && s[p].0 == k {
                    assert(t[i] == s[i]);
                } else if i < p {
                    assert(t[i] == s[i]);
                } else if i > p {
                    assert(t[i] == s[i - 1]);
                }
            }
        }
    }
}

proof fn lemma_key_pos_bounds<V>(s: Seq<(Seq<char>, V)>, k: Seq<char>)
    ensures
        key_pos(s, k) <= s.len(),
    decreases s.len(),
{
    if s.len() > 0 && str_lt(s[0].0, k) {
        lemma_key_pos_bounds(s.drop_first(), k);
    }
}

proof fn lemma_key_pos_props<V>(s: Seq<(Seq<char>, V)>, k: Seq<char>)
    ensures
        forall|i: int| 0 <= i < key_pos(s, k) ==> str_lt(#[trigger] s[i].0, k),
        key_pos(s, k) < s.len() ==> !str_lt(s[key_pos(s, k) as int].0, k),
    decreases s.len(),
{
    if s.len() > 0 && str_lt(s[0].0, k) {
        let t = s.drop_first();
        lemma_key_pos_props(t, k);
        lemma_key_pos_bounds(s, k);
        assert forall|i: int| 0 <= i < key_pos(s, k) implies str_lt(#[trigger] s[i].0, k) by {
            if i > 0 {
                assert(s[i] == t[i - 1]);
            }
        }
        if key_pos(s, k) < s.len() {
            assert(s[key_pos(s, k) as int] == t[key_pos(t, k) as int]);
        }
    }
}

/// With distinct keys, `lookup` finds the entry holding the key.
proof fn lemma_lookup_index<V>(s: Seq<(Seq<char>, V)>, q: Seq<char>)
    ensures
        lookup(s, q) is Some <==> exists|i: int| 0 <= i < s.len() && s[i].0 == q,
        forall|i: int| 0 <= i < s.len() && s[i].0 == q && (forall|j: int| i < j < s.len() ==> s[j].0 != q)
            ==> lookup(s, q) == Some(s[i].1),
    decreases s.len(),
{
    if s.len() > 0 {
        let d = s.drop_last();
        lemma_lookup_index(d, q);
        if s.last().0 != q {
            if exists|i: int| 0 <= i < s.len() && s[i].0 == q {
                let i = choose|i: int| 0 <= i < s.len() && s[i].0 == q;
                assert(d[i] == s[i]);
            }
            if exists|i: int| 0 <= i < d.len() && d[i].0 == q {
                let i = choose|i: int| 0 <= i < d.len() && d[i].0 == q;
                assert(s[i] == d[i]);
            }
            assert forall|i: int| 0 <= i < s.len() && s[i].0 == q && (forall|j: int| i < j < s.len() ==> s[j].0 != q)
                implies lookup(s, q) == Some(s[i].1) by {
                assert(d[i] == s[i]);
                assert forall|j: int| i < j < d.len() implies d[j].0 != q by {
                    assert(d[j] == s[j]);
                }
            }
        } else {
            assert(s[s.len() - 1].0 == q);
        }
    }
}

/// Sorted keys are distinct.
proof fn lemma_sorted_keys_distinct<V>(s: Seq<(Seq<char>, V)>)
    requires
        keys_increasing(s),
    ensures
        forall|i: int, j: int| 0 <= i < s.len() && 0 <= j < s.len() && i != j ==> s[i].0 != s[j].0,
{
    assert forall|i: int, j: int| 0 <= i < s.len() && 0 <= j < s.len() && i != j implies s[i].0 != s[j].0 by {
        if i < j {
            assert(str_lt(s[i].0, s[j].0));
        } else {
            assert(str_lt(s[j].0, s[i].0));
        }
        lemma_str_lt_total(s[i].0, s[i].0);
        lemma_str_lt_total(s[j].0, s[j].0);
    }
}

/// Inserting a key above all keys appends it.
pub proof fn lemma_append_key<V>(s: Seq<(Seq<char>, V)>, kv: (Seq<char>, V), i: int, all: Seq<(Seq<char>, V)>)
    requires
        0 <= i < all.len(),
        s == all.take(i),
        kv == all[i],
        keys_increasing(all),
    ensures
        keyed_insert(s, kv.0, kv.1) == s.push(kv),
        keys_increasing(s),
{
    assert forall|a: int, b: int| 0 <= a < b < s.len() implies str_lt(#[trigger] s[a].0, #[trigger] s[b].0) by {
        assert(s[a] == all[a] && s[b] == all[b]);
    }
    assert forall|k: int| 0 <= k < s.len() implies str_lt(#[trigger] s[k].0, kv.0) by {
        assert(s[k] == all[k]);
    }
    lemma_key_pos(s, kv.0, s.len() as int);
    assert(s.insert(s.len() as int, kv) =~= s.push(kv));
}

} // verus!
