//! Ordered sets of strings and ordered maps from strings to such sets, kept
//! sorted by code point so that iteration follows string order.

use vstd::prelude::*;

use crate::strings::{
    lemma_seq_lt_irreflexive, lemma_seq_lt_total, lemma_seq_lt_transitive, seq_lt, str_eq, str_lt,
};

verus! {

/// Strictly increasing in string order.
pub open spec fn sorted_keys(ks: Seq<Seq<char>>) -> bool {
    forall|i: int, j: int| 0 <= i < j < ks.len() ==> seq_lt(#[trigger] ks[i], #[trigger] ks[j])
}

/// Number of leading keys that sort before `k`.
pub open spec fn key_position(ks: Seq<Seq<char>>, k: Seq<char>) -> int
    decreases ks.len(),
{
    if ks.len() == 0 {
        0
    } else if seq_lt(ks[0], k) {
        1 + key_position(ks.drop_first(), k)
    } else {
        0
    }
}

pub proof fn lemma_sorted_distinct(ks: Seq<Seq<char>>, i: int, j: int)
    requires
        sorted_keys(ks),
        0 <= i < ks.len(),
        0 <= j < ks.len(),
        ks[i] == ks[j],
    ensures
        i == j,
{
    if i < j {
        assert(seq_lt(ks[i], ks[j]));
        lemma_seq_lt_irreflexive(ks[i]);
    } else if j < i {
        assert(seq_lt(ks[j], ks[i]));
        lemma_seq_lt_irreflexive(ks[i]);
    }
}

/// Inserting an absent key at its position keeps the keys sorted.
pub proof fn lemma_key_position(ks: Seq<Seq<char>>, k: Seq<char>)
    requires
        sorted_keys(ks),
        !ks.contains(k),
    ensures
        0 <= key_position(ks, k) <= ks.len(),
        forall|j: int| 0 <= j < key_position(ks, k) ==> seq_lt(#[trigger] ks[j], k),
        forall|j: int| key_position(ks, k) <= j < ks.len() ==> seq_lt(k, #[trigger] ks[j]),
        sorted_keys(ks.insert(key_position(ks, k), k)),
    decreases ks.len(),
{
    if ks.len() > 0 {
        let t = ks.drop_first();
        assert(sorted_keys(t)) by {
            assert forall|i: int, j: int| 0 <= i < j < t.len() implies seq_lt(#[trigger] t[i], #[trigger] t[j]) by {
                assert(t[i] == ks[i + 1] && t[j] == ks[j + 1]);
            }
        }
        assert(!t.contains(k)) by {
            if t.contains(k) {
                let q = choose|q: int| 0 <= q < t.len() && t[q] == k;
                assert(ks[q + 1] == k);
            }
        }
        lemma_key_position(t, k);
        if seq_lt(ks[0], k) {
            assert forall|j: int| 0 <= j < key_position(ks, k) implies seq_lt(#[trigger] ks[j], k) by {
                if j > 0 {
                    assert(ks[j] == t[j - 1]);
                }
            }
            assert forall|j: int| key_position(ks, k) <= j < ks.len() implies seq_lt(k, #[trigger] ks[j]) by {
                assert(ks[j] == t[j - 1]);
            }
        } else {
            assert(ks[0] != k);
            lemma_seq_lt_total(ks[0], k);
            assert forall|j: int| 0 <= j < ks.len() implies seq_lt(k, #[trigger] ks[j]) by {
                if j > 0 {
                    assert(seq_lt(ks[0], ks[j]));
                    lemma_seq_lt_transitive(k, ks[0], ks[j]);
                }
            }
        }
    }
    let p = key_position(ks, k);
    let r = ks.insert(p, k);
    assert forall|i: int, j: int| 0 <= i < j < r.len() implies seq_lt(#[trigger] r[i], #[trigger] r[j]) by {
        if i < p && j < p {
            assert(r[i] == ks[i] && r[j] == ks[j]);
        } else if i < p && j == p {
            assert(r[i] == ks[i]);
        } else if i < p {
            assert(r[i] == ks[i] && r[j] == ks[j - 1]);
            lemma_seq_lt_transitive(ks[i], k, ks[j - 1]);
        } else if i == p {
            assert(r[j] == ks[j - 1]);
        } else {
            assert(r[i] == ks[i - 1] && r[j] == ks[j - 1]);
        }
    }
}

pub open spec fn string_views(items: Seq<String>) -> Seq<Seq<char>> {
    items.map_values(|s: String| s@)
}

/// A set of strings, iterated in string order.
#[derive(Debug, Clone, Default, PartialEq, Eq)]
pub struct StrSet {
    items: Vec<String>,
}

impl StrSet {
    /// The elements, in order.
    pub closed spec fn elems(&self) -> Seq<Seq<char>> {
        string_views(self.items@)
    }

    pub open spec fn wf(&self) -> bool {
        sorted_keys(self.elems())
    }

    pub open spec fn set_view(&self) -> Set<Seq<char>> {
        self.elems().to_set()
    }

    pub fn new() -> (s: StrSet)
        ensures
            s.wf(),
            s.elems() == Seq::<Seq<char>>::empty(),
    {
        let s = StrSet { items: Vec::new() };
        assert(s.elems() =~= Seq::<Seq<char>>::empty());
        s
    }

    pub fn len(&self) -> (n: usize)
        ensures
            n == self.elems().len(),
    {
        self.items.len()
    }

    pub fn is_empty(&self) -> (r: bool)
        ensures
            r == (self.elems().len() == 0),
    {
        self.items.len() == 0
    }

    /// The elements, in string order.
    pub fn items(&self) -> (r: &[String])
        ensures
            string_views(r@) == self.elems(),
    {
        self.items.as_slice()
    }

    /// The elements as a vector, in string order.
    pub fn to_vec(&self) -> (r: Vec<String>)
        ensures
            string_views(r@) == self.elems(),
    {
        let mut r: Vec<String> = Vec::new();
        let mut i: usize = 0;
        while i < self.items.len()
            invariant
                i <= self.items.len(),
                string_views(r@) == string_views(self.items@.take(i as int)),
            decreases self.items.len() - i,
        {
            let ghost before = r@;
            r.push(self.items[i].clone());
            assert(string_views(r@) =~= string_views(before).push(self.items@[i as int]@));
            assert(self.items@.take(i + 1) =~= self.items@.take(i as int).push(self.items@[i as int]));
            assert(string_views(self.items@.take(i + 1)) =~= string_views(self.items@.take(i as int)).push(self.items@[i as int]@));
            i = i + 1;
        }
        assert(self.items@.take(self.items.len() as int) =~= self.items@);
        r
    }

    pub fn contains(&self, s: &str) -> (r: bool)
        ensures
            r == self.elems().contains(s@),
    {
        let mut i: usize = 0;
        while i < self.items.len()
            invariant
                i <= self.items.len(),
                forall|j: int| 0 <= j < i ==> self.elems()[j] != s@,
            decreases self.items.len() - i,
        {
            if str_eq(self.items[i].as_str(), s) {
                assert(self.elems()[i as int] == s@);
                return true;
            }
            i = i + 1;
        }
        false
    }

    /// Adds `s` in order unless it is already present.
    pub fn insert(&mut self, s: String)
        requires
            old(self).wf(),
        ensures
            final(self).wf(),
            old(self).elems().contains(s@) ==> final(self).elems() == old(self).elems(),
            !old(self).elems().contains(s@) ==> final(self).elems() == old(self).elems().insert(
                key_position(old(self).elems(), s@),
                s@,
            ),
            final(self).set_view() == old(self).set_view().insert(s@),
    {
        if self.contains(s.as_str()) {
            proof {
                assert(self.set_view() =~= self.set_view().insert(s@));
            }
            return;
        }
        let ghost ks = self.elems();
        proof {
            lemma_key_position(ks, s@);
        }
        let mut p: usize = 0;
        assert(ks.skip(0) =~= ks);
        while p < self.items.len() && str_lt(self.items[p].as_str(), s.as_str())
            invariant
                p <= self.items.len(),
                ks == self.elems(),
                key_position(ks, s@) == p + key_position(ks.skip(p as int), s@),
            decreases self.items.len() - p,
        {
            assert(ks.skip(p as int).drop_first() =~= ks.skip(p + 1));
            p = p + 1;
        }
        proof {
            if p < self.items.len() {
                assert(ks.skip(p as int)[0] == ks[p as int]);
            } else {
                assert(ks.skip(p as int).len() == 0);
            }
        }
        let ghost sv = s@;
        self.items.insert(p, s);
        proof {
            assert(self.elems() =~= ks.insert(p as int, sv));
            assert(self.set_view() =~= ks.to_set().insert(sv)) by {
                assert forall|x: Seq<char>| self.set_view().contains(x) implies ks.to_set().insert(sv).contains(x) by {
                    let q = choose|q: int| 0 <= q < self.elems().len() && self.elems()[q] == x;
                    if q < p {
                        assert(ks[q] == x);
                    } else if q > p {
                        assert(ks[q - 1] == x);
                    }
                }
                assert forall|x: Seq<char>| ks.to_set().insert(sv).contains(x) implies self.set_view().contains(x) by {
                    if x == sv {
                        assert(self.elems()[p as int] == sv);
                    } else {
                        let q = choose|q: int| 0 <= q < ks.len() && ks[q] == x;
                        if q < p {
                            assert(self.elems()[q] == x);
                        } else {
                            assert(self.elems()[q + 1] == x);
                        }
                    }
                }
            }
        }
    }

    /// Adds every element of `other`.
    pub fn extend(&mut self, other: &StrSet)
        requires
            old(self).wf(),
        ensures
            final(self).wf(),
            final(self).set_view() == old(self).set_view().union(other.set_view()),
    {
        let ghost start = self.set_view();
        let mut i: usize = 0;
        while i < other.items.len()
            invariant
                i <= other.items.len(),
                self.wf(),
                self.set_view() == start.union(other.elems().take(i as int).to_set()),
            decreases other.items.len() - i,
        {
            self.insert(other.items[i].clone());
            proof {
                let t = other.elems().take(i + 1);
                assert(t =~= other.elems().take(i as int).push(other.elems()[i as int]));
                other.elems().take(i as int).lemma_push_to_set_commute(other.elems()[i as int]);
                assert(self.set_view() =~= start.union(t.to_set()));
            }
            i = i + 1;
        }
        assert(other.elems().take(other.items.len() as int) =~= other.elems());
    }

    /// A copy of this set.
    pub fn copied(&self) -> (r: StrSet)
        ensures
            r.elems() == self.elems(),
    {
        StrSet { items: self.to_vec() }
    }
}

pub open spec fn entry_keys(entries: Seq<(String, StrSet)>) -> Seq<Seq<char>> {
    entries.map_values(|e: (String, StrSet)| e.0@)
}

/// A map from strings to sets of strings, iterated in key order.
#[derive(Debug, Clone, Default, PartialEq, Eq)]
pub struct AttrMap {
    entries: Vec<(String, StrSet)>,
}

impl AttrMap {
    pub closed spec fn entry_seq(&self) -> Seq<(String, StrSet)> {
        self.entries@
    }

    pub open spec fn keys(&self) -> Seq<Seq<char>> {
        entry_keys(self.entry_seq())
    }

    pub open spec fn wf(&self) -> bool {
        &&& sorted_keys(self.keys())
        &&& forall|i: int| 0 <= i < self.entry_seq().len() ==> (#[trigger] self.entry_seq()[i]).1.wf()
    }

    /// The map as key to set of values.
    pub open spec fn map_view(&self) -> Map<Seq<char>, Set<Seq<char>>> {
        Map::new(
            |k: Seq<char>| self.keys().contains(k),
            |k: Seq<char>| self.entry_seq()[self.keys().index_of(k)].1.set_view(),
        )
    }

    pub fn new() -> (m: AttrMap)
        ensures
            m.wf(),
            m.entry_seq() == Seq::<(String, StrSet)>::empty(),
    {
        AttrMap { entries: Vec::new() }
    }

    pub fn len(&self) -> (n: usize)
        ensures
            n == self.entry_seq().len(),
    {
        self.entries.len()
    }

    pub fn is_empty(&self) -> (r: bool)
        ensures
            r == (self.entry_seq().len() == 0),
    {
        self.entries.len() == 0
    }

    /// The entries, in key order.
    pub fn entries(&self) -> (r: &[(String, StrSet)])
        ensures
            r@ == self.entry_seq(),
    {
        self.entries.as_slice()
    }

    fn find(&self, key: &str) -> (r: Option<usize>)
        requires
            self.wf(),
        ensures
            match r {
                Some(i) => i < self.keys().len() && self.keys()[i as int] == key@ && self.keys().index_of(key@) == i,
                None => !self.keys().contains(key@),
            },
    {
        let mut i: usize = 0;
        while i < self.entries.len()
            invariant
                i <= self.entries.len(),
                self.wf(),
                forall|j: int| 0 <= j < i ==> self.keys()[j] != key@,
            decreases self.entries.len() - i,
        {
            if str_eq(self.entries[i].0.as_str(), key) {
                proof {
                    assert(self.keys()[i as int] == key@);
                    let q = self.keys().index_of(key@);
                    assert(self.keys().contains(key@));
                    lemma_sorted_distinct(self.keys(), i as int, q);
                }
                return Some(i);
            }
            i = i + 1;
        }
        None
    }

    /// The values held for `key`.
    pub fn get(&self, key: &str) -> (r: Option<&StrSet>)
        requires
            self.wf(),
        ensures
            match r {
                Some(s) => self.map_view().contains_key(key@) && s.set_view() == self.map_view()[key@] && s.wf(),
                None => !self.map_view().contains_key(key@),
            },
    {
        match self.find(key) {
            Some(i) => Some(&self.entries[i].1),
            None => None,
        }
    }

    /// Position of `key`, adding an empty entry in key order when absent.
    fn entry_index(&mut self, key: String) -> (r: usize)
        requires
            old(self).wf(),
        ensures
            final(self).wf(),
            r < final(self).keys().len(),
            final(self).keys()[r as int] == key@,
            final(self).keys().index_of(key@) == r,
            final(self).map_view() == if old(self).map_view().contains_key(key@) {
                old(self).map_view()
            } else {
                old(self).map_view().insert(key@, Set::empty())
            },
    {
        match self.find(key.as_str()) {
            Some(i) => i,
            None => {
                let ghost ks = self.keys();
                let ghost old_map = self.map_view();
                proof {
                    lemma_key_position(ks, key@);
                }
                let mut p: usize = 0;
                assert(ks.skip(0) =~= ks);
                while p < self.entries.len() && str_lt(self.entries[p].0.as_str(), key.as_str())
                    invariant
                        p <= self.entries.len(),
                        ks == self.keys(),
                        key_position(ks, key@) == p + key_position(ks.skip(p as int), key@),
                    decreases self.entries.len() - p,
                {
                    assert(ks.skip(p as int).drop_first() =~= ks.skip(p + 1));
                    p = p + 1;
                }
                proof {
                    if p < self.entries.len() {
                        assert(ks.skip(p as int)[0] == ks[p as int]);
                    } else {
                        assert(ks.skip(p as int).len() == 0);
                    }
                }
                let ghost kv = key@;
                let ghost old_entries = self.entries@;
                let empty = StrSet::new();
                self.entries.insert(p, (key, empty));
                proof {
                    let e = self.entries@;
                    assert(self.keys() =~= ks.insert(p as int, kv));
                    assert forall|i: int| 0 <= i < e.len() implies (#[trigger] e[i]).1.wf() by {
                        if i < p {
                            assert(e[i] == old_entries[i]);
                        } else if i > p {
                            assert(e[i] == old_entries[i - 1]);
                        }
                    }
                    let nk = self.keys();
                    assert(nk[p as int] == kv);
                    assert(nk.index_of(kv) == p) by {
                        let q = nk.index_of(kv);
                        lemma_sorted_distinct(nk, p as int, q);
                    }
                    assert(self.map_view() =~= old_map.insert(kv, Set::empty())) by {
                        assert forall|k: Seq<char>| #[trigger] self.map_view().contains_key(k) == old_map.insert(kv, Set::empty()).contains_key(k) by {
                            if nk.contains(k) && k != kv {
                                let q = choose|q: int| 0 <= q < nk.len() && nk[q] == k;
                                if q < p { assert(ks[q] == k); } else { assert(ks[q - 1] == k); }
                            }
                            if ks.contains(k) {
                                let q = choose|q: int| 0 <= q < ks.len() && ks[q] == k;
                                if q < p { assert(nk[q] == k); } else { assert(nk[q + 1] == k); }
                            }
                        }
                        assert forall|k: Seq<char>| self.map_view().contains_key(k) implies #[trigger] self.map_view()[k] == old_map.insert(kv, Set::empty())[k] by {
                            if k == kv {
                                assert(e[p as int].1.set_view() =~= Set::<Seq<char>>::empty());
                            } else {
                                let q = nk.index_of(k);
                                assert(0 <= q < nk.len() && nk[q] == k);
                                let q0 = if q < p { q } else { q - 1 };
                                assert(ks[q0] == k);
                                assert(ks.index_of(k) == q0) by {
                                    lemma_sorted_distinct(ks, q0, ks.index_of(k));
                                }
                                assert(e[q] == old_entries[q0]);
                            }
                        }
                    }
                }
                p
            },
        }
    }

    /// Adds `value` to the values of `key`.
    pub fn insert_value(&mut self, key: String, value: String)
        requires
            old(self).wf(),
        ensures
            final(self).wf(),
            final(self).map_view() == old(self).map_view().insert(
                key@,
                if old(self).map_view().contains_key(key@) {
                    old(self).map_view()[key@].insert(value@)
                } else {
                    set![value@]
                },
            ),
    {
        let ghost kv = key@;
        let ghost old_map = self.map_view();
        let i = self.entry_index(key);
        let ghost mid = self.entries@;
        let ghost mid_map = self.map_view();
        let mut e = self.entries.remove(i);
        e.1.insert(value);
        self.entries.insert(i, e);
        proof {
            assert(self.keys() =~= entry_keys(mid));
            let nk = self.keys();
            assert(nk.index_of(kv) == i as int);
            assert(mid_map[kv] == mid[i as int].1.set_view());
            assert(self.entries@[i as int].1.set_view() == mid[i as int].1.set_view().insert(value@));
            assert forall|j: int| 0 <= j < self.entries@.len() implies (#[trigger] self.entries@[j]).1.wf() by {
                if j != i {
                    assert(self.entries@[j] == mid[j]);
                }
            }
            assert(self.map_view().dom() =~= mid_map.dom());
            assert(self.map_view() =~= old_map.insert(
                kv,
                if old_map.contains_key(kv) {
                    old_map[kv].insert(value@)
                } else {
                    set![value@]
                },
            )) by {
                assert forall|k: Seq<char>| self.map_view().contains_key(k) implies #[trigger] self.map_view()[k] == old_map.insert(kv, if old_map.contains_key(kv) { old_map[kv].insert(value@) } else { set![value@] })[k] by {
                    if k == kv {
                        if !old_map.contains_key(kv) {
                            assert(Set::<Seq<char>>::empty().insert(value@) =~= set![value@]);
                        }
                    } else {
                        let q = nk.index_of(k);
                        assert(0 <= q < nk.len() && nk[q] == k);
                        assert(q != i);
                        assert(self.entries@[q] == mid[q]);
                        assert(mid_map[k] == mid[q].1.set_view());
                    }
                }
            }
        }
    }

    /// Adds every value of `values` to the values of `key`.
    pub fn extend_values(&mut self, key: String, values: &StrSet)
        requires
            old(self).wf(),
        ensures
            final(self).wf(),
            final(self).map_view() == old(self).map_view().insert(
                key@,
                if old(self).map_view().contains_key(key@) {
                    old(self).map_view()[key@].union(values.set_view())
                } else {
                    values.set_view()
                },
            ),
    {
        let ghost kv = key@;
        let ghost old_map = self.map_view();
        let i = self.entry_index(key);
        let ghost mid = self.entries@;
        let ghost mid_map = self.map_view();
        let mut e = self.entries.remove(i);
        e.1.extend(values);
        self.entries.insert(i, e);
        proof {
            assert(self.keys() =~= entry_keys(mid));
            let nk = self.keys();
            assert(nk.index_of(kv) == i as int);
            assert(self.entries@[i as int].1.set_view() == mid[i as int].1.set_view().union(values.set_view()));
            assert forall|j: int| 0 <= j < self.entries@.len() implies (#[trigger] self.entries@[j]).1.wf() by {
                if j != i {
                    assert(self.entries@[j] == mid[j]);
                }
            }
            let target = old_map.insert(
                kv,
                if old_map.contains_key(kv) {
                    old_map[kv].union(values.set_view())
                } else {
                    values.set_view()
                },
            );
            assert(self.map_view().dom() =~= mid_map.dom());
            assert(self.map_view() =~= target) by {
                assert forall|k: Seq<char>| self.map_view().contains_key(k) implies #[trigger] self.map_view()[k] == target[k] by {
                    if k == kv {
                        assert(mid_map[kv] == mid[i as int].1.set_view());
                        if !old_map.contains_key(kv) {
                            assert(Set::<Seq<char>>::empty().union(values.set_view()) =~= values.set_view());
                        }
                    } else {
                        let q = nk.index_of(k);
                        assert(0 <= q < nk.len() && nk[q] == k);
                        assert(q != i);
                        assert(self.entries@[q] == mid[q]);
                        assert(mid_map[k] == mid[q].1.set_view());
                    }
                }
            }
        }
    }
}

/// The entry at position `e` holds the values of its key.
pub proof fn lemma_entry_view(m: AttrMap, e: int)
    requires
        m.wf(),
        0 <= e < m.entry_seq().len(),
    ensures
        m.keys()[e] == m.entry_seq()[e].0@,
        m.keys().index_of(m.keys()[e]) == e,
        m.map_view().contains_key(m.keys()[e]),
        m.map_view()[m.keys()[e]] == m.entry_seq()[e].1.set_view(),
{
    let k = m.keys()[e];
    assert(m.keys().contains(k));
    lemma_sorted_distinct(m.keys(), e, m.keys().index_of(k));
}

/// A key of the map sits at the position `index_of` names.
pub proof fn lemma_key_entry(m: AttrMap, k: Seq<char>)
    requires
        m.wf(),
        m.map_view().contains_key(k),
    ensures
        0 <= m.keys().index_of(k) < m.entry_seq().len(),
        m.entry_seq()[m.keys().index_of(k)].0@ == k,
        m.map_view()[k] == m.entry_seq()[m.keys().index_of(k)].1.set_view(),
{
}

} // verus!
