//! Tables of records, each record found by its own string key.

use vstd::prelude::*;

use crate::strings::str_eq;

verus! {

/// A record that carries its own key.
pub trait Keyed {
    spec fn key_view(&self) -> Seq<char>;

    fn key(&self) -> (k: &str)
        ensures
            k@ == self.key_view(),
    ;
}

pub open spec fn keys_of<T: Keyed>(items: Seq<T>) -> Seq<Seq<char>> {
    items.map_values(|t: T| t.key_view())
}

/// Records by key; a key appears at most once.
pub struct Table<T: Keyed> {
    items: Vec<T>,
}

impl<T: Keyed> Table<T> {
    pub closed spec fn item_seq(&self) -> Seq<T> {
        self.items@
    }

    pub closed spec fn wf(&self) -> bool {
        keys_of(self.items@).no_duplicates()
    }

    /// The records by key.
    pub closed spec fn map_view(&self) -> Map<Seq<char>, T> {
        Map::new(
            |k: Seq<char>| keys_of(self.items@).contains(k),
            |k: Seq<char>| self.items@[keys_of(self.items@).index_of(k)],
        )
    }

    pub fn new() -> (t: Table<T>)
        ensures
            t.wf(),
            t.map_view() == Map::<Seq<char>, T>::empty(),
            t.item_seq() == Seq::<T>::empty(),
    {
        let t = Table { items: Vec::new() };
        assert(keys_of(t.items@) =~= Seq::<Seq<char>>::empty());
        assert(t.map_view() =~= Map::<Seq<char>, T>::empty());
        t
    }

    pub fn len(&self) -> (n: usize)
        requires
            self.wf(),
        ensures
            n == self.map_view().dom().len(),
            self.map_view().dom().finite(),
    {
        proof {
            assert(self.map_view().dom() =~= keys_of(self.items@).to_set());
            keys_of(self.items@).unique_seq_to_set();
            vstd::seq_lib::seq_to_set_is_finite(keys_of(self.items@));
        }
        self.items.len()
    }

    fn position(&self, key: &str) -> (r: Option<usize>)
        requires
            self.wf(),
        ensures
            match r {
                Some(i) => i < self.items@.len() && keys_of(self.items@)[i as int] == key@
                    && keys_of(self.items@).index_of(key@) == i,
                None => !keys_of(self.items@).contains(key@),
            },
    {
        let mut i: usize = 0;
        while i < self.items.len()
            invariant
                i <= self.items.len(),
                self.wf(),
                forall|j: int| 0 <= j < i ==> keys_of(self.items@)[j] != key@,
            decreases self.items.len() - i,
        {
            if str_eq(self.items[i].key(), key) {
                proof {
                    let ks = keys_of(self.items@);
                    assert(ks[i as int] == key@);
                    assert(ks.contains(key@));
                    let q = ks.index_of(key@);
                    assert(ks[q] == key@);
                }
                return Some(i);
            }
            i = i + 1;
        }
        None
    }

    /// The record with `key`, if any.
    pub fn get(&self, key: &str) -> (r: Option<&T>)
        requires
            self.wf(),
        ensures
            match r {
                Some(t) => self.map_view().contains_key(key@) && *t == self.map_view()[key@],
                None => !self.map_view().contains_key(key@),
            },
    {
        match self.position(key) {
            Some(i) => Some(&self.items[i]),
            None => None,
        }
    }

    /// Store a record under its key, replacing one with the same key.
    pub fn insert(&mut self, item: T)
        requires
            old(self).wf(),
        ensures
            final(self).wf(),
            final(self).map_view() == old(self).map_view().insert(item.key_view(), item),
            old(self).map_view().contains_key(item.key_view()) ==> final(self).item_seq() == old(
                self,
            ).item_seq().update(keys_of(old(self).item_seq()).index_of(item.key_view()), item),
            !old(self).map_view().contains_key(item.key_view()) ==> final(self).item_seq() == old(
                self,
            ).item_seq().push(item),
    {
        let ghost kv = item.key_view();
        let ghost before = self.items@;
        let k = item.key();
        match self.position(k) {
            Some(i) => {
                self.items.set(i, item);
                proof {
                    assert(keys_of(self.items@) =~= keys_of(before).update(i as int, kv));
                    assert(keys_of(self.items@) =~= keys_of(before));
                    assert(self.map_view() =~= old(self).map_view().insert(kv, item));
                }
            },
            None => {
                self.items.push(item);
                proof {
                    let ks = keys_of(self.items@);
                    let ob = keys_of(before);
                    assert(ks =~= ob.push(kv));
                    assert(ks.index_of(kv) == before.len()) by {
                        assert(ks[before.len() as int] == kv);
                        let q = ks.index_of(kv);
                        if q < before.len() {
                            assert(ob[q] == kv);
                        }
                    }
                    assert forall|u: Seq<char>| #[trigger] ks.contains(u) && u != kv implies ks.index_of(u) == ob.index_of(u) by {
                        let q = ks.index_of(u);
                        assert(ks[q] == u);
                        assert(ob.contains(u)) by {
                            assert(ob[q] == u);
                        }
                        let p = ob.index_of(u);
                        assert(ks[p] == u);
                    }
                    assert forall|u: Seq<char>| #[trigger] ks.contains(u) == (ob.contains(u) || u == kv) by {
                        if ks.contains(u) && u != kv {
                            let q = choose|q: int| 0 <= q < ks.len() && ks[q] == u;
                            assert(ob[q] == u);
                        }
                        if ob.contains(u) {
                            let q = choose|q: int| 0 <= q < ob.len() && ob[q] == u;
                            assert(ks[q] == u);
                        }
                        if u == kv {
                            assert(ks[before.len() as int] == u);
                        }
                    }
                    assert(self.map_view() =~= old(self).map_view().insert(kv, item));
                }
            },
        }
    }

    /// The records, in the order they were first stored, borrowed.
    pub fn as_slice(&self) -> (v: &[T])
        ensures
            v@ == self.item_seq(),
    {
        self.items.as_slice()
    }

    /// The records, in the order they were first stored.
    pub fn into_items(self) -> (v: Vec<T>)
        ensures
            v@ == self.item_seq(),
    {
        self.items
    }

    /// Every record sits under its own key.
    pub proof fn lemma_items_in_map(&self, i: int)
        requires
            self.wf(),
            0 <= i < self.item_seq().len(),
        ensures
            self.map_view().contains_key(self.item_seq()[i].key_view()),
            self.map_view()[self.item_seq()[i].key_view()] == self.item_seq()[i],
    {
        let ks = keys_of(self.items@);
        assert(ks[i] == self.items@[i].key_view());
        assert(ks.contains(ks[i]));
        let q = ks.index_of(ks[i]);
        assert(ks[q] == ks[i]);
    }

    /// A record is stored under its own key.
    pub proof fn lemma_values_carry_keys(&self, k: Seq<char>)
        requires
            self.map_view().contains_key(k),
        ensures
            self.map_view()[k].key_view() == k,
    {
        let ks = keys_of(self.items@);
        let q = ks.index_of(k);
        assert(ks[q] == k);
    }

    /// Every key of the map is the key of a record.
    pub proof fn lemma_map_in_items(&self, k: Seq<char>)
        requires
            self.wf(),
            self.map_view().contains_key(k),
        ensures
            exists|i: int| 0 <= i < self.item_seq().len() && (#[trigger] self.item_seq()[i]).key_view() == k && self.map_view()[k]
                == self.item_seq()[i],
    {
        let ks = keys_of(self.items@);
        let q = ks.index_of(k);
        assert(ks[q] == k);
        assert(self.item_seq()[q].key_view() == k);
    }

    /// Take out the record with `key`, if any.
    pub fn remove(&mut self, key: &str) -> (r: Option<T>)
        requires
            old(self).wf(),
        ensures
            final(self).wf(),
            match r {
                Some(t) => old(self).map_view().contains_key(key@) && t == old(self).map_view()[key@]
                    && final(self).map_view() == old(self).map_view().remove(key@),
                None => !old(self).map_view().contains_key(key@) && final(self).map_view() == old(self).map_view(),
            },
    {
        let ghost before = self.items@;
        match self.position(key) {
            Some(i) => {
                let t = self.items.remove(i);
                proof {
                    let ks = keys_of(self.items@);
                    let ob = keys_of(before);
                    assert(ks =~= ob.remove(i as int));
                    assert(ks.no_duplicates()) by {
                        assert forall|a: int, b: int| 0 <= a < b < ks.len() implies ks[a] != ks[b] by {
                            let a2 = if a < i { a } else { a + 1 };
                            let b2 = if b < i { b } else { b + 1 };
                            assert(ks[a] == ob[a2]);
                            assert(ks[b] == ob[b2]);
                        }
                    }
                    assert forall|u: Seq<char>| #[trigger] ks.contains(u) == (ob.contains(u) && u != key@) by {
                        if ks.contains(u) {
                            let q = choose|q: int| 0 <= q < ks.len() && ks[q] == u;
                            let q2 = if q < i { q } else { q + 1 };
                            assert(ob[q2] == u);
                            assert(q2 != i);
                        }
                        if ob.contains(u) && u != key@ {
                            let q = choose|q: int| 0 <= q < ob.len() && ob[q] == u;
                            assert(q != i);
                            if q < i {
                                assert(ks[q] == u);
                            } else {
                                assert(ks[q - 1] == u);
                            }
                        }
                    }
                    assert forall|u: Seq<char>| #[trigger] ks.contains(u) implies self.items@[ks.index_of(u)] == before[ob.index_of(u)] by {
                        let q = ks.index_of(u);
                        assert(ks[q] == u);
                        let q2 = if q < i { q } else { q + 1 };
                        assert(ob[q2] == u);
                        assert(ob.index_of(u) == q2) by {
                            let p = ob.index_of(u);
                            assert(ob.contains(u));
                            assert(ob[p] == u);
                        }
                    }
                    assert(self.map_view() =~= old(self).map_view().remove(key@));
                }
                Some(t)
            },
            None => None,
        }
    }
}

} // verus!
