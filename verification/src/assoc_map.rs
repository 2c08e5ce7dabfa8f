//! A small association-list map with unique keys, the store behind every
//! binding and configuration table of the engine. Its view is a
//! mathematical `Map`, and every operation is specified against that view.

use vstd::prelude::*;

verus! {

/// Keys of an [`AssocMap`] provide an executable equality test that agrees
/// with mathematical equality.
pub trait MapKey: Sized + Copy {
    /// Decides whether two keys are equal.
    fn key_eq(&self, other: &Self) -> (r: bool)
        ensures
            r <==> self == other,
    ;
}

/// Whether no key occurs twice in a sequence of entries.
pub open spec fn unique_keys<K, V>(s: Seq<(K, V)>) -> bool {
    forall|i: int, j: int| 0 <= i < j < s.len() ==> (#[trigger] s[i]).0 != (#[trigger] s[j]).0
}

/// The map described by a sequence of entries; a later entry for the same
/// key overrides an earlier one.
pub open spec fn seq_to_map<K, V>(s: Seq<(K, V)>) -> Map<K, V>
    decreases s.len(),
{
    if s.len() == 0 {
        Map::empty()
    } else {
        seq_to_map(s.drop_last()).insert(s.last().0, s.last().1)
    }
}

/// Positions in a sequence of entries carry exactly the memberships and
/// values of the map it describes, provided keys are unique.
pub proof fn lemma_seq_to_map<K, V>(s: Seq<(K, V)>)
    requires
        unique_keys(s),
    ensures
        forall|k: K| #[trigger] seq_to_map(s).contains_key(k)
            <==> exists|i: int| 0 <= i < s.len() && (#[trigger] s[i]).0 == k,
        forall|i: int| 0 <= i < s.len()
            ==> seq_to_map(s).contains_key((#[trigger] s[i]).0)
                && seq_to_map(s)[s[i].0] == s[i].1,
    decreases s.len(),
{
    if s.len() > 0 {
        let prefix = s.drop_last();
        assert(forall|i: int| 0 <= i < prefix.len() ==> #[trigger] prefix[i] == s[i]);
        lemma_seq_to_map(prefix);
        assert forall|k: K| #[trigger] seq_to_map(s).contains_key(k)
            implies exists|i: int| 0 <= i < s.len() && (#[trigger] s[i]).0 == k by {
            if k == s.last().0 {
                assert(0 <= s.len() - 1 < s.len() && s[s.len() - 1].0 == k);
            } else {
                assert(seq_to_map(prefix).contains_key(k));
                let i = choose|i: int| 0 <= i < prefix.len() && (#[trigger] prefix[i]).0 == k;
                assert(0 <= i < s.len() && s[i].0 == k);
            }
        }
        assert forall|k: K| (exists|i: int| 0 <= i < s.len() && (#[trigger] s[i]).0 == k)
            implies #[trigger] seq_to_map(s).contains_key(k) by {
            let i = choose|i: int| 0 <= i < s.len() && (#[trigger] s[i]).0 == k;
            if i < s.len() - 1 {
                assert(prefix[i].0 == k);
            }
        }
        assert forall|i: int| 0 <= i < s.len()
            implies seq_to_map(s)[(#[trigger] s[i]).0] == s[i].1 by {
            if i < s.len() - 1 {
                assert(s[i].0 != s.last().0);
                assert(seq_to_map(s)[s[i].0] == seq_to_map(prefix)[prefix[i].0]);
            }
        }
    }
}

/// A map stored as a vector of key-value entries with pairwise distinct
/// keys.
pub struct AssocMap<K, V> {
    pairs: Vec<(K, V)>,
}

impl<K: MapKey, V: Copy> View for AssocMap<K, V> {
    type V = Map<K, V>;

    open spec fn view(&self) -> Map<K, V> {
        seq_to_map(self.kv())
    }
}

impl<K: MapKey, V: Copy> AssocMap<K, V> {
    /// The stored entries, in storage order.
    pub closed spec fn kv(self) -> Seq<(K, V)> {
        self.pairs@
    }

    /// Well-formedness: no key is stored twice.
    pub open spec fn wf(self) -> bool {
        unique_keys(self.kv())
    }

    /// The empty map.
    pub fn new() -> (m: Self)
        ensures
            m.wf(),
            m@ == Map::<K, V>::empty(),
            m.kv() == Seq::<(K, V)>::empty(),
    {
        AssocMap { pairs: Vec::new() }
    }

    /// How many entries the map holds.
    pub fn len(&self) -> (n: usize)
        ensures
            n == self.kv().len(),
    {
        self.pairs.len()
    }

    /// The entry at a storage position.
    pub fn entry_at(&self, i: usize) -> (e: (K, V))
        requires
            i < self.kv().len(),
        ensures
            e == self.kv()[i as int],
    {
        self.pairs[i]
    }

    /// The storage position of a key, if the key is present.
    fn position_of(&self, k: &K) -> (r: Option<usize>)
        ensures
            match r {
                Some(i) => i < self.kv().len() && self.kv()[i as int].0 == *k,
                None => forall|i: int| 0 <= i < self.kv().len()
                    ==> (#[trigger] self.kv()[i]).0 != *k,
            },
    {
        let n = self.pairs.len();
        let mut i: usize = 0;
        while i < n
            invariant
                i <= n,
                n == self.kv().len(),
                forall|j: int| 0 <= j < i ==> (#[trigger] self.kv()[j]).0 != *k,
            decreases n - i,
        {
            let p = self.pairs[i];
            if p.0.key_eq(k) {
                return Some(i);
            }
            i = i + 1;
        }
        None
    }

    /// Whether the map has an entry for a key.
    pub fn contains_key(&self, k: &K) -> (r: bool)
        requires
            self.wf(),
        ensures
            r == self@.contains_key(*k),
    {
        proof {
            lemma_seq_to_map(self.kv());
        }
        self.position_of(k).is_some()
    }

    /// The value bound to a key, if any.
    pub fn get(&self, k: &K) -> (r: Option<V>)
        requires
            self.wf(),
        ensures
            self@.contains_key(*k) ==> r == Some(self@[*k]),
            !self@.contains_key(*k) ==> r.is_none(),
    {
        proof {
            lemma_seq_to_map(self.kv());
        }
        match self.position_of(k) {
            Some(i) => {
                let p = self.pairs[i];
                Some(p.1)
            }
            None => None,
        }
    }

    /// Binds a key to a value, replacing any earlier binding of that key.
    pub fn insert(&mut self, k: K, v: V)
        requires
            old(self).wf(),
        ensures
            final(self).wf(),
            final(self)@ == old(self)@.insert(k, v),
    {
        proof {
            lemma_seq_to_map(self.kv());
        }
        match self.position_of(&k) {
            Some(i) => {
                self.pairs[i] = (k, v);
                proof {
                    assert(unique_keys(self.kv())) by {
                        assert(forall|j: int| 0 <= j < self.kv().len() && j != i
                            ==> (#[trigger] self.kv()[j]).0 == old(self).kv()[j].0);
                    }
                    lemma_seq_to_map(self.kv());
                    assert forall|k2: K| true
                        implies #[trigger] self@.contains_key(k2)
                            == old(self)@.insert(k, v).contains_key(k2)
                            && (self@.contains_key(k2)
                                ==> self@[k2] == old(self)@.insert(k, v)[k2]) by {
                        if k2 == k {
                            assert(self.kv()[i as int].0 == k && self.kv()[i as int].1 == v);
                        } else {
                            if old(self)@.contains_key(k2) {
                                let j = choose|j: int| 0 <= j < old(self).kv().len()
                                    && (#[trigger] old(self).kv()[j]).0 == k2;
                                assert(j != i);
                                assert(self.kv()[j].0 == k2 && self.kv()[j].1
                                    == old(self).kv()[j].1);
                            }
                            if self@.contains_key(k2) {
                                let j = choose|j: int| 0 <= j < self.kv().len()
                                    && (#[trigger] self.kv()[j]).0 == k2;
                                assert(j != i);
                                assert(old(self).kv()[j].0 == k2);
                            }
                        }
                    }
                    assert(self@ =~= old(self)@.insert(k, v));
                }
            }
            None => {
                self.pairs.push((k, v));
                proof {
                    assert(self.kv().drop_last() =~= old(self).kv());
                    assert(self.kv().last() == (k, v));
                    assert(unique_keys(self.kv())) by {
                        assert(forall|j: int| 0 <= j < old(self).kv().len()
                            ==> #[trigger] self.kv()[j] == old(self).kv()[j]);
                    }
                }
            }
        }
    }

    /// Removes the binding of a key; leaves the map unchanged when the key
    /// is absent.
    pub fn remove(&mut self, k: &K)
        requires
            old(self).wf(),
        ensures
            final(self).wf(),
            final(self)@ == old(self)@.remove(*k),
    {
        proof {
            lemma_seq_to_map(self.kv());
        }
        match self.position_of(k) {
            Some(i) => {
                self.pairs.remove(i);
                proof {
                    assert(forall|j: int| 0 <= j < i
                        ==> #[trigger] self.kv()[j] == old(self).kv()[j]);
                    assert(forall|j: int| i <= j < self.kv().len()
                        ==> #[trigger] self.kv()[j] == old(self).kv()[j + 1]);
                    assert(unique_keys(self.kv()));
                    lemma_seq_to_map(self.kv());
                    assert forall|k2: K| true
                        implies #[trigger] self@.contains_key(k2)
                            == old(self)@.remove(*k).contains_key(k2)
                            && (self@.contains_key(k2)
                                ==> self@[k2] == old(self)@.remove(*k)[k2]) by {
                        if self@.contains_key(k2) {
                            let j = choose|j: int| 0 <= j < self.kv().len()
                                && (#[trigger] self.kv()[j]).0 == k2;
                            if j < i {
                                assert(old(self).kv()[j].0 == k2);
                                assert(k2 != *k);
                                assert(self.kv()[j].1 == old(self).kv()[j].1);
                            } else {
                                assert(old(self).kv()[j + 1].0 == k2);
                                assert(k2 != *k);
                                assert(self.kv()[j].1 == old(self).kv()[j + 1].1);
                            }
                        }
                        if k2 != *k && old(self)@.contains_key(k2) {
                            let j = choose|j: int| 0 <= j < old(self).kv().len()
                                && (#[trigger] old(self).kv()[j]).0 == k2;
                            assert(j != i);
                            if j < i {
                                assert(self.kv()[j].0 == k2);
                            } else {
                                assert(self.kv()[j - 1].0 == k2);
                            }
                        }
                        if k2 == *k {
                            assert(forall|j: int| 0 <= j < self.kv().len()
                                ==> (#[trigger] self.kv()[j]).0 != k2);
                        }
                    }
                    assert(self@ =~= old(self)@.remove(*k));
                }
            }
            None => {
                proof {
                    assert(self@ =~= old(self)@.remove(*k));
                }
            }
        }
    }

    /// Empties the map.
    pub fn clear(&mut self)
        ensures
            final(self).wf(),
            final(self)@ == Map::<K, V>::empty(),
            final(self).kv() == Seq::<(K, V)>::empty(),
    {
        self.pairs.clear();
    }

    /// An entry-for-entry copy of the map.
    pub fn duplicate(&self) -> (r: Self)
        ensures
            r.kv() == self.kv(),
            r@ == self@,
            self.wf() ==> r.wf(),
    {
        let n = self.pairs.len();
        let mut pairs: Vec<(K, V)> = Vec::new();
        let mut i: usize = 0;
        while i < n
            invariant
                i <= n,
                n == self.kv().len(),
                pairs@ == self.kv().take(i as int),
            decreases n - i,
        {
            pairs.push(self.pairs[i]);
            proof {
                assert(pairs@ =~= self.kv().take(i + 1));
            }
            i = i + 1;
        }
        proof {
            assert(pairs@ =~= self.kv());
        }
        AssocMap { pairs }
    }

    /// Copies every entry of `other` into the map; on a key collision the
    /// entry of `other` wins.
    pub fn merge_from(&mut self, other: &AssocMap<K, V>)
        requires
            old(self).wf(),
        ensures
            final(self).wf(),
            final(self)@ == old(self)@.union_prefer_right(other@),
    {
        let n = other.len();
        let mut i: usize = 0;
        while i < n
            invariant
                i <= n,
                n == other.kv().len(),
                self.wf(),
                self@ == old(self)@.union_prefer_right(seq_to_map(other.kv().take(i as int))),
            decreases n - i,
        {
            let e = other.entry_at(i);
            self.insert(e.0, e.1);
            proof {
                let t1 = other.kv().take(i + 1);
                assert(t1.drop_last() =~= other.kv().take(i as int));
                assert(t1.last() == other.kv()[i as int]);
                assert(seq_to_map(t1)
                    == seq_to_map(other.kv().take(i as int)).insert(e.0, e.1));
                assert(self@ =~= old(self)@.union_prefer_right(seq_to_map(t1)));
            }
            i = i + 1;
        }
        proof {
            assert(other.kv().take(n as int) =~= other.kv());
        }
    }
}

} // verus!
