//! A finite map keyed by credentials, stored as a vector of entries whose keys
//! are pairwise distinct. Its model is a `Map` from credential models to value
//! models; the order of the entries is not part of the model.

use crate::types::{Credential, CredentialView, Duplicate};
use vstd::prelude::*;
use vstd::seq_lib::*;

verus! {

/// The models of the keys of a sequence of entries, in order.
pub open spec fn keys_of<V>(s: Seq<(Credential, V)>) -> Seq<CredentialView> {
    Seq::new(s.len(), |i: int| s[i].0@)
}

/// An index of `s` whose key has model `k`.
pub open spec fn index_of_key<V>(s: Seq<(Credential, V)>, k: CredentialView) -> int {
    choose|i: int| 0 <= i < s.len() && s[i].0@ == k
}

/// The map that a sequence of entries with distinct keys stands for.
pub open spec fn map_of<V: View>(s: Seq<(Credential, V)>) -> Map<CredentialView, V::V> {
    Map::new(|k: CredentialView| keys_of(s).contains(k), |k: CredentialView| s[index_of_key(s, k)].1@)
}

/// Each entry of a sequence with distinct keys is found in its map.
pub proof fn lemma_map_of_index<V: View>(s: Seq<(Credential, V)>, i: int)
    requires
        keys_of(s).no_duplicates(),
        0 <= i < s.len(),
    ensures
        map_of(s).contains_key(s[i].0@),
        map_of(s)[s[i].0@] == s[i].1@,
        index_of_key(s, s[i].0@) == i,
{
    let k = s[i].0@;
    assert(keys_of(s)[i] == k);
    let j = index_of_key(s, k);
    assert(0 <= j < s.len() && s[j].0@ == k);
    assert(keys_of(s)[j] == keys_of(s)[i]);
}

/// A key is in the map exactly when some entry has it.
pub proof fn lemma_map_of_contains<V: View>(s: Seq<(Credential, V)>, k: CredentialView)
    ensures
        map_of(s).contains_key(k) <==> exists|i: int| 0 <= i < s.len() && s[i].0@ == k,
{
    if map_of(s).contains_key(k) {
        assert(keys_of(s).contains(k));
        let i = choose|i: int| 0 <= i < keys_of(s).len() && keys_of(s)[i] == k;
        assert(s[i].0@ == k);
    }
    if exists|i: int| 0 <= i < s.len() && s[i].0@ == k {
        let i = choose|i: int| 0 <= i < s.len() && s[i].0@ == k;
        assert(keys_of(s)[i] == k);
    }
}

/// The map of distinct entries is finite and has one key per entry.
pub proof fn lemma_map_of_len<V: View>(s: Seq<(Credential, V)>)
    requires
        keys_of(s).no_duplicates(),
    ensures
        map_of(s).dom() == keys_of(s).to_set(),
        map_of(s).dom().finite(),
        map_of(s).dom().len() == s.len(),
{
    assert(map_of(s).dom() =~= keys_of(s).to_set());
    keys_of(s).unique_seq_to_set();
    seq_to_set_is_finite(keys_of(s));
}

/// Appending an entry with a new key inserts it into the map.
pub proof fn lemma_map_of_push<V: View>(s: Seq<(Credential, V)>, e: (Credential, V))
    requires
        keys_of(s).no_duplicates(),
        !map_of(s).contains_key(e.0@),
    ensures
        keys_of(s.push(e)).no_duplicates(),
        map_of(s.push(e)) == map_of(s).insert(e.0@, e.1@),
{
    let t = s.push(e);
    assert(keys_of(t) =~= keys_of(s).push(e.0@));
    assert forall|a: int, b: int| 0 <= a < b < keys_of(t).len() implies keys_of(t)[a] != keys_of(
        t,
    )[b] by {
        if b == s.len() {
            assert(keys_of(s)[a] == s[a].0@);
            lemma_map_of_contains(s, e.0@);
        }
    }
    lemma_map_of_index(t, s.len() as int);
    assert forall|k: CredentialView| #[trigger] map_of(t).contains_key(k) == map_of(s).insert(
        e.0@,
        e.1@,
    ).contains_key(k) by {
        lemma_map_of_contains(s, k);
        lemma_map_of_contains(t, k);
        if exists|i: int| 0 <= i < t.len() && t[i].0@ == k {
            let i = choose|i: int| 0 <= i < t.len() && t[i].0@ == k;
            if i < s.len() {
                assert(s[i].0@ == k);
            }
        }
        if exists|i: int| 0 <= i < s.len() && s[i].0@ == k {
            let i = choose|i: int| 0 <= i < s.len() && s[i].0@ == k;
            assert(t[i].0@ == k);
        }
    }
    assert forall|k: CredentialView| #[trigger] map_of(t).contains_key(k) implies map_of(t)[k]
        == map_of(s).insert(e.0@, e.1@)[k] by {
        lemma_map_of_contains(t, k);
        let i = choose|i: int| 0 <= i < t.len() && t[i].0@ == k;
        lemma_map_of_index(t, i);
        if i < s.len() {
            assert(t[i] == s[i]);
            lemma_map_of_index(s, i);
        }
    }
    assert(map_of(t) =~= map_of(s).insert(e.0@, e.1@));
}

/// Removing the entry at an index removes its key from the map.
pub proof fn lemma_map_of_remove<V: View>(s: Seq<(Credential, V)>, i: int)
    requires
        keys_of(s).no_duplicates(),
        0 <= i < s.len(),
    ensures
        keys_of(s.remove(i)).no_duplicates(),
        map_of(s.remove(i)) == map_of(s).remove(s[i].0@),
{
    let t = s.remove(i);
    let k0 = s[i].0@;
    assert(keys_of(t) =~= keys_of(s).remove(i));
    assert forall|a: int, b: int| 0 <= a < b < keys_of(t).len() implies keys_of(t)[a] != keys_of(
        t,
    )[b] by {
        let a2 = if a < i { a } else { a + 1 };
        let b2 = if b < i { b } else { b + 1 };
        assert(keys_of(t)[a] == keys_of(s)[a2]);
        assert(keys_of(t)[b] == keys_of(s)[b2]);
    }
    assert forall|k: CredentialView| #[trigger] map_of(t).contains_key(k) == map_of(s).remove(
        k0,
    ).contains_key(k) by {
        lemma_map_of_contains(s, k);
        lemma_map_of_contains(t, k);
        if exists|j: int| 0 <= j < t.len() && t[j].0@ == k {
            let j = choose|j: int| 0 <= j < t.len() && t[j].0@ == k;
            let j2 = if j < i { j } else { j + 1 };
            assert(s[j2].0@ == k);
            assert(keys_of(s)[j2] == k);
            assert(keys_of(s)[i] == k0);
        }
        if exists|j: int| 0 <= j < s.len() && s[j].0@ == k {
            let j = choose|j: int| 0 <= j < s.len() && s[j].0@ == k;
            if k != k0 {
                assert(j != i);
                let j3 = if j < i { j } else { j - 1 };
                assert(t[j3].0@ == k);
            }
        }
    }
    assert forall|k: CredentialView| #[trigger] map_of(t).contains_key(k) implies map_of(t)[k]
        == map_of(s).remove(k0)[k] by {
        lemma_map_of_contains(t, k);
        let j = choose|j: int| 0 <= j < t.len() && t[j].0@ == k;
        lemma_map_of_index(t, j);
        let j2 = if j < i { j } else { j + 1 };
        assert(t[j] == s[j2]);
        lemma_map_of_index(s, j2);
    }
    assert(map_of(t) =~= map_of(s).remove(k0));
}

/// Replacing the value of the entry at an index updates its key in the map.
pub proof fn lemma_map_of_update<V: View>(s: Seq<(Credential, V)>, i: int, e: (Credential, V))
    requires
        keys_of(s).no_duplicates(),
        0 <= i < s.len(),
        e.0@ == s[i].0@,
    ensures
        keys_of(s.update(i, e)).no_duplicates(),
        map_of(s.update(i, e)) == map_of(s).insert(e.0@, e.1@),
{
    let t = s.update(i, e);
    assert(keys_of(t) =~= keys_of(s));
    assert forall|k: CredentialView| #[trigger] map_of(t).contains_key(k) == map_of(s).insert(
        e.0@,
        e.1@,
    ).contains_key(k) by {
        lemma_map_of_contains(s, k);
        lemma_map_of_contains(t, k);
        lemma_map_of_index(s, i);
        if exists|j: int| 0 <= j < t.len() && t[j].0@ == k {
            let j = choose|j: int| 0 <= j < t.len() && t[j].0@ == k;
            assert(s[j].0@ == k);
        }
        if exists|j: int| 0 <= j < s.len() && s[j].0@ == k {
            let j = choose|j: int| 0 <= j < s.len() && s[j].0@ == k;
            assert(t[j].0@ == k);
        }
    }
    assert forall|k: CredentialView| #[trigger] map_of(t).contains_key(k) implies map_of(t)[k]
        == map_of(s).insert(e.0@, e.1@)[k] by {
        lemma_map_of_contains(t, k);
        let j = choose|j: int| 0 <= j < t.len() && t[j].0@ == k;
        lemma_map_of_index(t, j);
        if j != i {
            lemma_map_of_index(s, j);
            assert(keys_of(s)[j] != keys_of(s)[i]);
        }
    }
    assert(map_of(t) =~= map_of(s).insert(e.0@, e.1@));
}

/// A map keyed by credentials.
#[derive(Debug)]
pub struct CredMap<V> {
    pub(crate) entries: Vec<(Credential, V)>,
}

impl<V: View> View for CredMap<V> {
    type V = Map<CredentialView, V::V>;

    closed spec fn view(&self) -> Map<CredentialView, V::V> {
        map_of(self.entries@)
    }
}

impl<V: View> CredMap<V> {
    /// The keys of the entries are pairwise distinct.
    pub open spec fn wf(&self) -> bool {
        keys_of(self.seq()).no_duplicates()
    }

    /// An empty map.
    pub fn new() -> (r: Self)
        ensures
            r.wf(),
            r@ == Map::<CredentialView, V::V>::empty(),
    {
        let r = CredMap { entries: Vec::new() };
        assert(keys_of(r.entries@) =~= Seq::<CredentialView>::empty());
        assert(r@ =~= Map::<CredentialView, V::V>::empty());
        r
    }

    /// The number of keys.
    pub fn len(&self) -> (r: usize)
        requires
            self.wf(),
        ensures
            r == self@.dom().len(),
            self@.dom().finite(),
    {
        proof {
            lemma_map_of_len(self.entries@);
        }
        self.entries.len()
    }

    /// The index of the entry with key `k`, if there is one.
    pub(crate) fn find(&self, k: &Credential) -> (r: Option<usize>)
        requires
            self.wf(),
        ensures
            match r {
                Some(i) => i < self.entries@.len() && self.entries@[i as int].0@ == k@
                    && self@.contains_key(k@) && self@[k@] == self.entries@[i as int].1@,
                None => !self@.contains_key(k@),
            },
    {
        let mut i: usize = 0;
        while i < self.entries.len()
            invariant
                self.wf(),
                i <= self.entries@.len(),
                forall|j: int| 0 <= j < i ==> self.entries@[j].0@ != k@,
            decreases self.entries@.len() - i,
        {
            if self.entries[i].0.same_as(k) {
                proof {
                    lemma_map_of_index(self.entries@, i as int);
                }
                return Some(i);
            }
            i = i + 1;
        }
        proof {
            lemma_map_of_contains(self.entries@, k@);
        }
        None
    }

    /// Whether `k` is a key.
    pub fn contains_key(&self, k: &Credential) -> (r: bool)
        requires
            self.wf(),
        ensures
            r == self@.contains_key(k@),
    {
        self.find(k).is_some()
    }

    /// The value at `k`, if `k` is a key.
    pub fn get(&self, k: &Credential) -> (r: Option<&V>)
        requires
            self.wf(),
        ensures
            match r {
                Some(v) => self@.contains_key(k@) && v@ == self@[k@],
                None => !self@.contains_key(k@),
            },
    {
        match self.find(k) {
            Some(i) => Some(&self.entries[i].1),
            None => None,
        }
    }

    /// Sets the value at `k`, adding `k` if it is not a key yet.
    pub fn insert(&mut self, k: Credential, v: V)
        requires
            old(self).wf(),
        ensures
            final(self).wf(),
            final(self)@ == old(self)@.insert(k@, v@),
    {
        match self.find(&k) {
            Some(i) => {
                proof {
                    lemma_map_of_update(self.entries@, i as int, (k, v));
                }
                self.entries.set(i, (k, v));
            },
            None => {
                proof {
                    lemma_map_of_push(self.entries@, (k, v));
                }
                self.entries.push((k, v));
            },
        }
    }

    /// Removes `k` and returns the value it had, if it was a key.
    pub fn remove(&mut self, k: &Credential) -> (r: Option<V>)
        requires
            old(self).wf(),
        ensures
            final(self).wf(),
            final(self)@ == old(self)@.remove(k@),
            match r {
                Some(v) => old(self)@.contains_key(k@) && v@ == old(self)@[k@],
                None => !old(self)@.contains_key(k@),
            },
    {
        match self.find(k) {
            Some(i) => {
                proof {
                    lemma_map_of_remove(self.entries@, i as int);
                }
                let (_key, v) = self.entries.remove(i);
                Some(v)
            },
            None => {
                assert(self@.remove(k@) =~= self@);
                None
            },
        }
    }

    /// The stored entries, in storage order.
    pub closed spec fn seq(&self) -> Seq<(Credential, V)> {
        self.entries@
    }

    /// Each stored entry is in the map, and entries with equal key models are
    /// the same entry.
    pub proof fn lemma_entry(&self, i: int)
        requires
            self.wf(),
            0 <= i < self.seq().len(),
        ensures
            self@.contains_key(self.seq()[i].0@),
            self@[self.seq()[i].0@] == self.seq()[i].1@,
            forall|j: int|
                0 <= j < self.seq().len() && #[trigger] self.seq()[j].0@ == self.seq()[i].0@
                    ==> j == i,
    {
        lemma_map_of_index(self.entries@, i);
        assert forall|j: int|
            0 <= j < self.seq().len() && #[trigger] self.seq()[j].0@ == self.seq()[i].0@
                implies j == i by {
            assert(keys_of(self.entries@)[j] == keys_of(self.entries@)[i]);
        }
    }

    /// The keys of the map are those of the stored entries.
    pub proof fn lemma_keys(&self, k: CredentialView)
        requires
            self.wf(),
        ensures
            self@.contains_key(k) <==> exists|i: int|
                0 <= i < self.seq().len() && #[trigger] self.seq()[i].0@ == k,
            self@.dom().finite(),
            self@.dom().len() == self.seq().len(),
    {
        lemma_map_of_contains(self.entries@, k);
        lemma_map_of_len(self.entries@);
    }

    /// Two wf maps whose entries have the same keys in the same places, and
    /// whose values are related by `f`, have maps related by `f`.
    pub proof fn lemma_map_values<W: View>(&self, other: &CredMap<W>, f: spec_fn(V::V) -> W::V)
        requires
            self.wf(),
            self.seq().len() == other.seq().len(),
            forall|j: int|
                0 <= j < self.seq().len() ==> #[trigger] other.seq()[j].0@ == self.seq()[j].0@,
            forall|j: int|
                0 <= j < self.seq().len() ==> #[trigger] other.seq()[j].1@ == f(
                    self.seq()[j].1@,
                ),
        ensures
            other.wf(),
            other@ == self@.map_values(f),
    {
        assert(keys_of(other.entries@) =~= keys_of(self.entries@));
        assert forall|k: CredentialView| #[trigger] other@.contains_key(k) == self@.map_values(
            f,
        ).contains_key(k) by {
            lemma_map_of_contains(self.entries@, k);
            lemma_map_of_contains(other.entries@, k);
            if exists|i: int| 0 <= i < self.seq().len() && self.seq()[i].0@ == k {
                let i = choose|i: int| 0 <= i < self.seq().len() && self.seq()[i].0@ == k;
                assert(other.seq()[i].0@ == k);
            }
            if exists|i: int| 0 <= i < other.seq().len() && other.seq()[i].0@ == k {
                let i = choose|i: int| 0 <= i < other.seq().len() && other.seq()[i].0@ == k;
                assert(self.seq()[i].0@ == k);
            }
        }
        assert forall|k: CredentialView| #[trigger] other@.contains_key(k) implies other@[k]
            == self@.map_values(f)[k] by {
            lemma_map_of_contains(other.entries@, k);
            let i = choose|i: int| 0 <= i < other.seq().len() && other.seq()[i].0@ == k;
            lemma_map_of_index(other.entries@, i);
            lemma_map_of_index(self.entries@, i);
        }
        assert(other@ =~= self@.map_values(f));
    }

    /// The number of stored entries.
    pub fn entry_count(&self) -> (r: usize)
        ensures
            r == self.seq().len(),
    {
        self.entries.len()
    }

    /// The stored entry at index `i`.
    pub fn entry_at(&self, i: usize) -> (r: &(Credential, V))
        requires
            i < self.seq().len(),
        ensures
            *r == self.seq()[i as int],
    {
        &self.entries[i]
    }

    /// Takes the stored entry at index `i` out.
    pub(crate) fn take_entry(&mut self, i: usize) -> (r: (Credential, V))
        requires
            old(self).wf(),
            i < old(self).seq().len(),
        ensures
            final(self).wf(),
            final(self).seq() == old(self).seq().remove(i as int),
            r == old(self).seq()[i as int],
    {
        proof {
            lemma_map_of_remove(self.entries@, i as int);
        }
        self.entries.remove(i)
    }

    /// Puts an entry back at index `i`, where the entry that was taken from
    /// there had the same key.
    pub(crate) fn restore_entry(&mut self, i: usize, e: (Credential, V), Ghost(before): Ghost<Seq<(Credential, V)>>)
        requires
            old(self).wf(),
            i < before.len(),
            old(self).seq() == before.remove(i as int),
            keys_of(before).no_duplicates(),
            e.0@ == before[i as int].0@,
        ensures
            final(self).wf(),
            final(self).seq() == before.update(i as int, e),
    {
        self.entries.insert(i, e);
        proof {
            assert(self.entries@ =~= before.update(i as int, e));
            lemma_map_of_update(before, i as int, e);
        }
    }

    /// Copies of all keys, each once.
    pub fn keys(&self) -> (r: Vec<Credential>)
        requires
            self.wf(),
        ensures
            r.deep_view().no_duplicates(),
            r.deep_view().to_set() == self@.dom(),
            r.len() == self@.dom().len(),
    {
        let mut r: Vec<Credential> = Vec::new();
        let mut i: usize = 0;
        while i < self.entries.len()
            invariant
                self.wf(),
                i <= self.entries@.len(),
                r@.len() == i,
                forall|j: int| 0 <= j < i ==> (#[trigger] r@[j])@ == self.entries@[j].0@,
            decreases self.entries@.len() - i,
        {
            let c = self.entries[i].0.duplicate();
            r.push(c);
            i = i + 1;
        }
        proof {
            assert(r.deep_view() =~= keys_of(self.entries@));
            lemma_map_of_len(self.entries@);
        }
        r
    }
}


impl<V: Duplicate> CredMap<V> {
    /// A map equal to this one.
    pub fn duplicate(&self) -> (r: Self)
        requires
            self.wf(),
        ensures
            r.wf(),
            r@ == self@,
    {
        let mut entries: Vec<(Credential, V)> = Vec::new();
        let mut i: usize = 0;
        while i < self.entries.len()
            invariant
                self.wf(),
                i <= self.entries@.len(),
                entries@.len() == i,
                forall|j: int|
                    0 <= j < i ==> (#[trigger] entries@[j]).0@ == self.entries@[j].0@
                        && entries@[j].1@ == self.entries@[j].1@,
            decreases self.entries@.len() - i,
        {
            let k = self.entries[i].0.duplicate();
            let v = self.entries[i].1.duplicate();
            entries.push((k, v));
            i = i + 1;
        }
        let r = CredMap { entries };
        proof {
            self.lemma_map_values(&r, |x: V::V| x);
            assert(self@.map_values(|x: V::V| x) =~= self@);
        }
        r
    }
}

} // verus!
