//! A small association list from `u64` keys to values, with a `Map` view.
//!
//! The game keys several tables by entity or asset identity: the previous
//! positions that collision rollback restores, the entities that depend on
//! each asset, and the reverse lookup from an entity to its asset. This list
//! keeps one entry per key, in first-insertion order.

use vstd::prelude::*;

verus! {

/// The mathematical map described by a sequence of key/value pairs, later
/// entries winning (irrelevant here: the list keeps keys unique).
pub open spec fn map_of<T>(s: Seq<(u64, T)>) -> Map<u64, T>
    decreases s.len(),
{
    if s.len() == 0 {
        Map::empty()
    } else {
        map_of(s.drop_last()).insert(s.last().0, s.last().1)
    }
}

/// Whether some pair of `s` carries the key `e`.
pub open spec fn key_in<T>(s: Seq<(u64, T)>, e: u64) -> bool {
    exists|k: int| 0 <= k < s.len() && (#[trigger] s[k]).0 == e
}

/// Whether no two pairs of `s` share a key.
pub open spec fn keys_unique<T>(s: Seq<(u64, T)>) -> bool {
    forall|i: int, j: int|
        0 <= i < j < s.len() ==> (#[trigger] s[i]).0 != (#[trigger] s[j]).0
}

/// A key stands in the domain of `map_of(s)` exactly when some pair of `s`
/// carries it.
pub proof fn lemma_map_of_dom<T>(s: Seq<(u64, T)>)
    ensures
        forall|e: u64| #[trigger] map_of(s).dom().contains(e) <==> key_in(s, e),
    decreases s.len(),
{
    if s.len() == 0 {
    } else {
        lemma_map_of_dom(s.drop_last());
        assert forall|e: u64| #[trigger] map_of(s).dom().contains(e) implies key_in(s, e) by {
            if e == s.last().0 {
                assert(s[s.len() - 1].0 == e);
            } else {
                assert(map_of(s.drop_last()).dom().contains(e));
                assert(key_in(s.drop_last(), e));
                let k = choose|k: int| 0 <= k < s.drop_last().len() && (#[trigger] s.drop_last()[k]).0 == e;
                assert(s.drop_last()[k] == s[k]);
                assert(s[k].0 == e);
            }
        }
        assert forall|e: u64| key_in(s, e) implies #[trigger] map_of(s).dom().contains(e) by {
            let k = choose|k: int| 0 <= k < s.len() && (#[trigger] s[k]).0 == e;
            if k < s.len() - 1 {
                assert(s.drop_last()[k].0 == e);
                assert(key_in(s.drop_last(), e));
                assert(map_of(s.drop_last()).dom().contains(e));
            }
        }
    }
}

/// With unique keys, the map reads each pair back unchanged.
pub proof fn lemma_map_of_get<T>(s: Seq<(u64, T)>, k: int)
    requires
        keys_unique(s),
        0 <= k < s.len(),
    ensures
        map_of(s).dom().contains(s[k].0),
        map_of(s)[s[k].0] == s[k].1,
    decreases s.len(),
{
    if k == s.len() - 1 {
    } else {
        assert(s.drop_last()[k] == s[k]);
        lemma_map_of_get(s.drop_last(), k);
        assert(s[k].0 != s.last().0);
    }
}

/// Updating the value of the pair at `k` updates the map at that key alone.
pub proof fn lemma_map_of_update<T>(s: Seq<(u64, T)>, k: int, t: T)
    requires
        keys_unique(s),
        0 <= k < s.len(),
    ensures
        map_of(s.update(k, (s[k].0, t))) == map_of(s).insert(s[k].0, t),
    decreases s.len(),
{
    let s2 = s.update(k, (s[k].0, t));
    if k == s.len() - 1 {
        assert(s2.drop_last() =~= s.drop_last());
    } else {
        assert(s2.drop_last() =~= s.drop_last().update(k, (s[k].0, t)));
        assert(s.drop_last()[k] == s[k]);
        lemma_map_of_update(s.drop_last(), k, t);
        assert(s[k].0 != s.last().0);
        assert(map_of(s2) =~= map_of(s).insert(s[k].0, t));
    }
}

/// Removing the pair at `k` removes that key from the map alone.
pub proof fn lemma_map_of_remove<T>(s: Seq<(u64, T)>, k: int)
    requires
        keys_unique(s),
        0 <= k < s.len(),
    ensures
        map_of(s.remove(k)) == map_of(s).remove(s[k].0),
    decreases s.len(),
{
    let s2 = s.remove(k);
    if k == s.len() - 1 {
        assert(s2 =~= s.drop_last());
        lemma_map_of_dom(s.drop_last());
        assert(!key_in(s.drop_last(), s.last().0));
        assert(map_of(s.drop_last()).remove(s.last().0) =~= map_of(s.drop_last()));
        assert(map_of(s).remove(s[k].0) =~= map_of(s.drop_last()));
    } else {
        assert(s2.drop_last() =~= s.drop_last().remove(k));
        assert(s2.last() == s.last());
        assert(s.drop_last()[k] == s[k]);
        lemma_map_of_remove(s.drop_last(), k);
        assert(s[k].0 != s.last().0);
        assert(map_of(s2) =~= map_of(s).remove(s[k].0));
    }
}

/// One entry per key, in first-insertion order.
pub struct KeyedList<V> {
    entries: Vec<(u64, V)>,
}

impl<V: View> KeyedList<V> {
    /// The entries in order, each value abstracted to its view.
    pub closed spec fn entries_view(self) -> Seq<(u64, V::V)> {
        self.entries@.map_values(|p: (u64, V)| (p.0, p.1@))
    }

    /// The keys in order.
    pub open spec fn keys_view(self) -> Seq<u64> {
        Seq::new(self.entries_view().len(), |i: int| self.entries_view()[i].0)
    }

    /// No two entries share a key.
    pub closed spec fn wf(self) -> bool {
        keys_unique(self.entries_view())
    }

    /// A key is in the map's domain exactly when some entry carries it.
    pub proof fn lemma_dom_is_keys(self)
        ensures
            forall|e: u64| #[trigger] self@.dom().contains(e) <==> key_in(self.entries_view(), e),
            forall|e: u64|
                #[trigger] self@.dom().contains(e) <==> self.keys_view().contains(e),
    {
        lemma_map_of_dom(self.entries_view());
        assert forall|e: u64| key_in(self.entries_view(), e) <==> self.keys_view().contains(e) by {
            if key_in(self.entries_view(), e) {
                let k = choose|k: int|
                    0 <= k < self.entries_view().len() && (#[trigger] self.entries_view()[k]).0
                        == e;
                assert(self.keys_view()[k] == e);
            }
            if self.keys_view().contains(e) {
                let k = choose|k: int|
                    0 <= k < self.keys_view().len() && self.keys_view()[k] == e;
                assert((self.entries_view()[k]).0 == e);
            }
        }
    }

    /// With the list well formed, no key appears at two positions.
    pub proof fn lemma_wf_keys_distinct(self)
        requires
            self.wf(),
        ensures
            forall|i: int, j: int|
                0 <= i < j < self.keys_view().len() ==> self.keys_view()[i] != self.keys_view()[j],
    {
        assert forall|i: int, j: int| 0 <= i < j < self.keys_view().len() implies self.keys_view()[i]
            != self.keys_view()[j] by {
            assert((self.entries_view()[i]).0 != (self.entries_view()[j]).0);
        }
    }

    pub fn new() -> (r: KeyedList<V>)
        ensures
            r.wf(),
            r@ == Map::<u64, V::V>::empty(),
            r.entries_view() == Seq::<(u64, V::V)>::empty(),
    {
        let l = KeyedList { entries: Vec::new() };
        proof {
            assert(l.entries_view() =~= Seq::<(u64, V::V)>::empty());
            assert(l@ =~= Map::<u64, V::V>::empty());
        }
        l
    }

    /// Index of the entry that carries `key`, if one does.
    fn position(&self, key: u64) -> (r: Option<usize>)
        ensures
            match r {
                Some(k) => k < self.entries_view().len() && self.entries_view()[k as int].0
                    == key,
                None => !key_in(self.entries_view(), key),
            },
    {
        let mut k: usize = 0;
        while k < self.entries.len()
            invariant
                k <= self.entries@.len(),
                forall|m: int| 0 <= m < k ==> (#[trigger] self.entries_view()[m]).0 != key,
            decreases self.entries@.len() - k,
        {
            if self.entries[k].0 == key {
                proof {
                    assert(self.entries_view()[k as int].0 == key);
                }
                return Some(k);
            }
            k += 1;
        }
        None
    }

    /// The value stored under `key`, if any.
    pub fn get(&self, key: u64) -> (r: Option<&V>)
        requires
            self.wf(),
        ensures
            r is Some <==> self@.dom().contains(key),
            r is Some ==> self@[key] == r->0@,
    {
        proof {
            lemma_map_of_dom(self.entries_view());
        }
        match self.position(key) {
            Some(k) => {
                proof {
                    lemma_map_of_get(self.entries_view(), k as int);
                }
                Some(&self.entries[k].1)
            },
            None => None,
        }
    }

    /// Stores `v` under `key`: in place if the key is present, at the end if
    /// it is new.
    pub fn put(&mut self, key: u64, v: V)
        requires
            old(self).wf(),
        ensures
            final(self).wf(),
            final(self)@ == old(self)@.insert(key, v@),
            old(self)@.dom().contains(key) ==> final(self).keys_view() == old(self).keys_view()
                && (exists|k: int|
                0 <= k < old(self).entries_view().len() && (#[trigger] old(
                    self,
                ).entries_view()[k]).0 == key && final(self).entries_view() == old(
                    self,
                ).entries_view().update(k, (key, v@))),
            !old(self)@.dom().contains(key) ==> final(self).entries_view() == old(
                self,
            ).entries_view().push((key, v@)),
    {
        proof {
            lemma_map_of_dom(self.entries_view());
        }
        match self.position(key) {
            Some(k) => {
                self.entries.set(k, (key, v));
                proof {
                    let pre = old(self).entries_view();
                    assert(self.entries_view() =~= pre.update(k as int, (key, v@)));
                    lemma_map_of_update(pre, k as int, v@);
                    assert(self.keys_view() =~= old(self).keys_view());
                }
            },
            None => {
                self.entries.push((key, v));
                proof {
                    let pre = old(self).entries_view();
                    assert(self.entries_view() =~= pre.push((key, v@)));
                    assert(self.entries_view().drop_last() =~= pre);
                    assert(self@ == map_of(pre).insert(key, v@));
                }
            },
        }
    }

    /// Drops the entry that carries `key`, if one does.
    pub fn remove_key(&mut self, key: u64)
        requires
            old(self).wf(),
        ensures
            final(self).wf(),
            final(self)@ == old(self)@.remove(key),
    {
        proof {
            lemma_map_of_dom(self.entries_view());
        }
        match self.position(key) {
            Some(k) => {
                self.entries.remove(k);
                proof {
                    let pre = old(self).entries_view();
                    assert(self.entries_view() =~= pre.remove(k as int));
                    lemma_map_of_remove(pre, k as int);
                }
            },
            None => {
                proof {
                    assert(self@ =~= self@.remove(key));
                }
            },
        }
    }

    /// How many keys are stored.
    pub fn len(&self) -> (r: usize)
        ensures
            r == self.entries_view().len(),
    {
        self.entries.len()
    }

    /// The key of the entry at position `i`.
    pub fn key_at(&self, i: usize) -> (r: u64)
        requires
            i < self.entries_view().len(),
        ensures
            r == self.entries_view()[i as int].0,
    {
        self.entries[i].0
    }

    /// The value of the entry at position `i`.
    pub fn value_at(&self, i: usize) -> (r: &V)
        requires
            self.wf(),
            i < self.entries_view().len(),
        ensures
            r@ == self.entries_view()[i as int].1,
            self@.dom().contains(self.entries_view()[i as int].0),
            self@[self.entries_view()[i as int].0] == r@,
    {
        proof {
            lemma_map_of_get(self.entries_view(), i as int);
        }
        &self.entries[i].1
    }
}

impl<V: View> View for KeyedList<V> {
    type V = Map<u64, V::V>;

    closed spec fn view(&self) -> Map<u64, V::V> {
        map_of(self.entries_view())
    }
}

} // verus!
