//! A sorted-map model backed by a vector of unique-keyed entries, the shape
//! every ledger table shares. The view is a `Map`, and each operation states
//! its effect on that view.

use vstd::prelude::*;
use vstd::pervasive::VecAdditionalExecFns;

verus! {

/// Keys of the ledger tables: equality in executable code agrees with
/// structural equality.
pub trait MapKey: Sized {
    fn key_eq(&self, other: &Self) -> (r: bool)
        ensures
            r == (*self == *other),
    ;
}

/// No two entries share a key.
pub open spec fn spec_keys_unique<K, V>(s: Seq<(K, V)>) -> bool {
    forall|i: int, j: int| 0 <= i < j < s.len() ==> s[i].0 != s[j].0
}

/// The map an entry sequence denotes.
pub open spec fn spec_assoc<K, V>(s: Seq<(K, V)>) -> Map<K, V>
    decreases s.len(),
{
    if s.len() == 0 {
        Map::empty()
    } else {
        spec_assoc(s.drop_last()).insert(s.last().0, s.last().1)
    }
}

pub proof fn lemma_assoc_contains<K, V>(s: Seq<(K, V)>, i: int)
    requires
        0 <= i < s.len(),
        spec_keys_unique(s),
    ensures
        spec_assoc(s).dom().contains(s[i].0),
        spec_assoc(s)[s[i].0] == s[i].1,
    decreases s.len(),
{
    if i == s.len() - 1 {
    } else {
        assert(spec_keys_unique(s.drop_last()));
        assert(s.drop_last()[i] == s[i]);
        lemma_assoc_contains(s.drop_last(), i);
        assert(s[i].0 != s.last().0);
    }
}

pub proof fn lemma_assoc_absent<K, V>(s: Seq<(K, V)>, k: K)
    requires
        forall|i: int| 0 <= i < s.len() ==> s[i].0 != k,
    ensures
        !spec_assoc(s).dom().contains(k),
    decreases s.len(),
{
    if s.len() > 0 {
        assert(forall|i: int| 0 <= i < s.drop_last().len() ==> s.drop_last()[i].0 != k);
        lemma_assoc_absent(s.drop_last(), k);
        assert(s.last().0 != k);
    }
}

/// Members of the map correspond to entries.
pub proof fn lemma_assoc_member_index<K, V>(s: Seq<(K, V)>, k: K)
    requires
        spec_assoc(s).dom().contains(k),
    ensures
        exists|i: int| 0 <= i < s.len() && s[i].0 == k,
    decreases s.len(),
{
    if s.len() > 0 {
        if s.last().0 == k {
            assert(s[s.len() - 1].0 == k);
        } else {
            assert(spec_assoc(s.drop_last()).dom().contains(k));
            lemma_assoc_member_index(s.drop_last(), k);
            let i = choose|i: int| 0 <= i < s.drop_last().len() && s.drop_last()[i].0 == k;
            assert(s[i].0 == k);
        }
    }
}

pub proof fn lemma_assoc_update<K, V>(s: Seq<(K, V)>, i: int, k: K, v: V)
    requires
        0 <= i < s.len(),
        spec_keys_unique(s),
        s[i].0 == k,
    ensures
        spec_assoc(s.update(i, (k, v))) == spec_assoc(s).insert(k, v),
    decreases s.len(),
{
    let su = s.update(i, (k, v));
    if i == s.len() - 1 {
        assert(su.drop_last() =~= s.drop_last());
        assert(su.last() == (k, v));
        assert(spec_assoc(su) == spec_assoc(s.drop_last()).insert(k, v));
        assert(spec_assoc(s).insert(k, v) =~= spec_assoc(s.drop_last()).insert(
            s.last().0,
            s.last().1,
        ).insert(k, v));
        assert(spec_assoc(s.drop_last()).insert(k, v) =~= spec_assoc(s.drop_last()).insert(
            s.last().0,
            s.last().1,
        ).insert(k, v));
    } else {
        assert(spec_keys_unique(s.drop_last()));
        assert(s.drop_last()[i] == s[i]);
        lemma_assoc_update(s.drop_last(), i, k, v);
        assert(su.drop_last() =~= s.drop_last().update(i, (k, v)));
        assert(su.last() == s.last());
        assert(spec_assoc(su) == spec_assoc(s.drop_last()).insert(k, v).insert(
            s.last().0,
            s.last().1,
        ));
        assert(s[i].0 != s.last().0);
        assert(k != s.last().0);
        assert(spec_assoc(s.drop_last()).insert(k, v).insert(s.last().0, s.last().1)
            =~= spec_assoc(s.drop_last()).insert(s.last().0, s.last().1).insert(k, v));
    }
}

pub proof fn lemma_assoc_push<K, V>(s: Seq<(K, V)>, k: K, v: V)
    ensures
        spec_assoc(s.push((k, v))) == spec_assoc(s).insert(k, v),
{
    assert(s.push((k, v)).drop_last() =~= s);
    assert(s.push((k, v)).last() == (k, v));
}

pub proof fn lemma_assoc_remove<K, V>(s: Seq<(K, V)>, i: int)
    requires
        0 <= i < s.len(),
        spec_keys_unique(s),
    ensures
        spec_assoc(s.remove(i)) == spec_assoc(s).remove(s[i].0),
    decreases s.len(),
{
    let k = s[i].0;
    if i == s.len() - 1 {
        assert(s.remove(i) =~= s.drop_last());
        assert(forall|j: int| 0 <= j < s.drop_last().len() ==> s.drop_last()[j].0 != k);
        lemma_assoc_absent(s.drop_last(), k);
        assert(spec_assoc(s).remove(k) =~= spec_assoc(s.drop_last()));
    } else {
        assert(spec_keys_unique(s.drop_last()));
        assert(s.drop_last()[i] == s[i]);
        lemma_assoc_remove(s.drop_last(), i);
        assert(s.remove(i).drop_last() =~= s.drop_last().remove(i));
        assert(s.remove(i).last() == s.last());
        assert(spec_assoc(s.remove(i)) == spec_assoc(s.drop_last()).remove(k).insert(
            s.last().0,
            s.last().1,
        ));
        assert(k != s.last().0);
        assert(spec_assoc(s.drop_last()).remove(k).insert(s.last().0, s.last().1)
            =~= spec_assoc(s.drop_last()).insert(s.last().0, s.last().1).remove(k));
    }
}

/// A keyed table: a vector of entries with pairwise-distinct keys, viewed as
/// a map.
pub struct KvMap<K, V> {
    pub entries: Vec<(K, V)>,
}

impl<K: MapKey + Copy, V: Copy> KvMap<K, V> {
    pub open spec fn view(self) -> Map<K, V> {
        spec_assoc(self.entries@)
    }

    pub open spec fn wf(self) -> bool {
        spec_keys_unique(self.entries@)
    }

    pub fn new() -> (r: KvMap<K, V>)
        ensures
            r.wf(),
            r.view() == Map::<K, V>::empty(),
            r.entries@.len() == 0,
    {
        KvMap { entries: Vec::new() }
    }

    pub fn len(&self) -> (r: usize)
        ensures
            r == self.entries@.len(),
    {
        self.entries.len()
    }

    /// The index holding `k`, if any.
    fn find(&self, k: &K) -> (r: Option<usize>)
        ensures
            r matches Some(i) ==> i < self.entries@.len() && self.entries@[i as int].0 == *k,
            r is None ==> forall|j: int|
                0 <= j < self.entries@.len() ==> self.entries@[j].0 != *k,
    {
        let mut i: usize = 0;
        while i < self.entries.len()
            invariant
                i <= self.entries@.len(),
                forall|j: int| 0 <= j < i ==> self.entries@[j].0 != *k,
            decreases self.entries@.len() - i,
        {
            if self.entries[i].0.key_eq(k) {
                return Some(i);
            }
            i = i + 1;
        }
        None
    }

    pub fn contains_key(&self, k: &K) -> (r: bool)
        requires
            self.wf(),
        ensures
            r == self.view().dom().contains(*k),
    {
        match self.find(k) {
            Some(i) => {
                proof {
                    lemma_assoc_contains(self.entries@, i as int);
                }
                true
            }
            None => {
                proof {
                    lemma_assoc_absent(self.entries@, *k);
                }
                false
            }
        }
    }

    pub fn get(&self, k: &K) -> (r: Option<V>)
        requires
            self.wf(),
        ensures
            self.view().dom().contains(*k) ==> r == Some(self.view()[*k]),
            !self.view().dom().contains(*k) ==> r is None,
    {
        match self.find(k) {
            Some(i) => {
                proof {
                    lemma_assoc_contains(self.entries@, i as int);
                }
                Some(self.entries[i].1)
            }
            None => {
                proof {
                    lemma_assoc_absent(self.entries@, *k);
                }
                None
            }
        }
    }

    /// Inserts or replaces the value at `k`.
    pub fn insert(&mut self, k: K, v: V)
        requires
            old(self).wf(),
        ensures
            final(self).wf(),
            final(self).view() == old(self).view().insert(k, v),
            old(self).view().dom().contains(k) ==> exists|i: int|
                0 <= i < old(self).entries@.len() && old(self).entries@[i].0 == k && final(self).entries@ == old(self).entries@.update(i, (k, v)),
            !old(self).view().dom().contains(k) ==> final(self).entries@ == old(self).entries@.push((k, v)),
    {
        match self.find(&k) {
            Some(i) => {
                proof {
                    lemma_assoc_contains(self.entries@, i as int);
                    lemma_assoc_update(self.entries@, i as int, k, v);
                }
                self.entries.set(i, (k, v));
                proof {
                    assert(old(self).entries@[i as int].0 == k);
                    assert(self.entries@ == old(self).entries@.update(i as int, (k, v)));
                }
            }
            None => {
                proof {
                    lemma_assoc_absent(self.entries@, k);
                    lemma_assoc_push(self.entries@, k, v);
                }
                self.entries.push((k, v));
            }
        }
    }

    /// Removes the entry at `k`, if present.
    pub fn delete(&mut self, k: &K)
        requires
            old(self).wf(),
        ensures
            final(self).wf(),
            final(self).view() == old(self).view().remove(*k),
            old(self).view().dom().contains(*k) ==> exists|i: int|
                0 <= i < old(self).entries@.len() && old(self).entries@[i].0 == *k && final(self).entries@ == old(self).entries@.remove(i),
            !old(self).view().dom().contains(*k) ==> final(self).entries@ == old(self).entries@,
    {
        match self.find(k) {
            Some(i) => {
                proof {
                    lemma_assoc_contains(self.entries@, i as int);
                    lemma_assoc_remove(self.entries@, i as int);
                    let s = self.entries@;
                    assert forall|a: int, b: int|
                        0 <= a < b < s.remove(i as int).len() implies s.remove(i as int)[a].0
                        != s.remove(i as int)[b].0 by {
                        if b < i {
                        } else if a < i {
                            assert(s.remove(i as int)[b] == s[b + 1]);
                        } else {
                            assert(s.remove(i as int)[a] == s[a + 1]);
                            assert(s.remove(i as int)[b] == s[b + 1]);
                        }
                    }
                }
                self.entries.remove(i);
            }
            None => {
                proof {
                    lemma_assoc_absent(self.entries@, *k);
                    assert(self.view().remove(*k) =~= self.view());
                }
            }
        }
    }
}


/// The sum of a weight over the values of an entry sequence.
pub open spec fn spec_sum<K, V>(s: Seq<(K, V)>, f: spec_fn(V) -> int) -> int
    decreases s.len(),
{
    if s.len() == 0 {
        0
    } else {
        spec_sum(s.drop_last(), f) + f(s.last().1)
    }
}

pub proof fn lemma_sum_push<K, V>(s: Seq<(K, V)>, k: K, v: V, f: spec_fn(V) -> int)
    ensures
        spec_sum(s.push((k, v)), f) == spec_sum(s, f) + f(v),
{
    assert(s.push((k, v)).drop_last() =~= s);
    assert(s.push((k, v)).last() == (k, v));
}

pub proof fn lemma_sum_update<K, V>(s: Seq<(K, V)>, i: int, k: K, v: V, f: spec_fn(V) -> int)
    requires
        0 <= i < s.len(),
    ensures
        spec_sum(s.update(i, (k, v)), f) == spec_sum(s, f) - f(s[i].1) + f(v),
    decreases s.len(),
{
    let su = s.update(i, (k, v));
    if i == s.len() - 1 {
        assert(su.drop_last() =~= s.drop_last());
        assert(su.last() == (k, v));
    } else {
        lemma_sum_update(s.drop_last(), i, k, v, f);
        assert(su.drop_last() =~= s.drop_last().update(i, (k, v)));
        assert(su.last() == s.last());
        assert(s.drop_last()[i] == s[i]);
    }
}

pub proof fn lemma_sum_remove<K, V>(s: Seq<(K, V)>, i: int, f: spec_fn(V) -> int)
    requires
        0 <= i < s.len(),
    ensures
        spec_sum(s.remove(i), f) == spec_sum(s, f) - f(s[i].1),
    decreases s.len(),
{
    if i == s.len() - 1 {
        assert(s.remove(i) =~= s.drop_last());
    } else {
        lemma_sum_remove(s.drop_last(), i, f);
        assert(s.remove(i).drop_last() =~= s.drop_last().remove(i));
        assert(s.remove(i).last() == s.last());
        assert(s.drop_last()[i] == s[i]);
    }
}

/// With non-negative weights, each entry's weight is at most the sum.
pub proof fn lemma_sum_element_bound<K, V>(s: Seq<(K, V)>, i: int, f: spec_fn(V) -> int)
    requires
        0 <= i < s.len(),
        forall|j: int| 0 <= j < s.len() ==> f(s[j].1) >= 0,
    ensures
        f(s[i].1) <= spec_sum(s, f),
    decreases s.len(),
{
    if i == s.len() - 1 {
        lemma_sum_nonneg(s.drop_last(), f);
    } else {
        lemma_sum_element_bound(s.drop_last(), i, f);
        assert(s.drop_last()[i] == s[i]);
    }
}

pub proof fn lemma_sum_nonneg<K, V>(s: Seq<(K, V)>, f: spec_fn(V) -> int)
    requires
        forall|j: int| 0 <= j < s.len() ==> f(s[j].1) >= 0,
    ensures
        spec_sum(s, f) >= 0,
    decreases s.len(),
{
    if s.len() > 0 {
        lemma_sum_nonneg(s.drop_last(), f);
    }
}

} // verus!
