//! A small key-value store keyed by byte strings, with a mathematical
//! `Map` view.
//!
//! The host state needs three little maps (storage, balances, endpoints),
//! none beyond a handful of entries in any test, so a vector of pairs with
//! pairwise-distinct keys is held, and looked through front to back.

use vstd::prelude::*;

use crate::types::bytes_eq;

verus! {

/// Pairwise-distinct keys, compared as byte sequences.
pub(crate) open spec fn unique_keys<V>(s: Seq<(Vec<u8>, V)>) -> bool {
    forall|i: int, j: int|
        0 <= i < j < s.len() ==> (#[trigger] s[i]).0@ != (#[trigger] s[j]).0@
}

/// The map an entry sequence stands for; a later entry would win, though a
/// well-formed store never holds a key twice.
pub(crate) open spec fn entries_map<V: View>(s: Seq<(Vec<u8>, V)>) -> Map<Seq<u8>, V::V>
    decreases s.len(),
{
    if s.len() == 0 {
        Map::empty()
    } else {
        entries_map(s.drop_last()).insert(s.last().0@, s.last().1@)
    }
}

/// A key-value store keyed by byte strings.
pub(crate) struct ByteMap<V> {
    pub(crate) entries: Vec<(Vec<u8>, V)>,
}

/// An entry's key is in the map, bound to that entry's value.
pub(crate) proof fn lemma_entries_map_index<V: View>(s: Seq<(Vec<u8>, V)>, i: int)
    requires
        unique_keys(s),
        0 <= i < s.len(),
    ensures
        entries_map(s).contains_key(s[i].0@),
        entries_map(s)[s[i].0@] == s[i].1@,
    decreases s.len(),
{
    if i < s.len() - 1 {
        assert(s.drop_last()[i] == s[i]);
        lemma_entries_map_index(s.drop_last(), i);
    }
}

/// A key under no entry is not in the map.
pub(crate) proof fn lemma_entries_map_absent<V: View>(s: Seq<(Vec<u8>, V)>, k: Seq<u8>)
    requires
        forall|i: int| 0 <= i < s.len() ==> (#[trigger] s[i]).0@ != k,
    ensures
        !entries_map(s).contains_key(k),
    decreases s.len(),
{
    if s.len() > 0 {
        assert(forall|i: int|
            0 <= i < s.drop_last().len() ==> (#[trigger] s.drop_last()[i]).0@ != k);
        lemma_entries_map_absent(s.drop_last(), k);
    }
}

/// Appending an entry with a fresh key inserts it into the map.
pub(crate) proof fn lemma_entries_map_push<V: View>(s: Seq<(Vec<u8>, V)>, key: Vec<u8>, value: V)
    ensures
        entries_map(s.push((key, value))) == entries_map(s).insert(key@, value@),
{
    assert(s.push((key, value)).drop_last() =~= s);
    assert(s.push((key, value)).last() == (key, value));
}

/// Replacing the entry that holds a key overwrites that key's value in the
/// map.
pub(crate) proof fn lemma_entries_map_update<V: View>(
    s: Seq<(Vec<u8>, V)>,
    i: int,
    key: Vec<u8>,
    value: V,
)
    requires
        unique_keys(s),
        0 <= i < s.len(),
        key@ == s[i].0@,
    ensures
        entries_map(s.update(i, (key, value))) == entries_map(s).insert(key@, value@),
    decreases s.len(),
{
    let t = s.update(i, (key, value));
    if i == s.len() - 1 {
        assert(t.drop_last() =~= s.drop_last());
        assert(t.last() == (key, value));
        assert(entries_map(s.drop_last()).insert(s.last().0@, s.last().1@).insert(key@, value@)
            =~= entries_map(s.drop_last()).insert(key@, value@));
    } else {
        assert(t.drop_last() =~= s.drop_last().update(i, (key, value)));
        assert(t.last() == s.last());
        assert(s.drop_last()[i] == s[i]);
        lemma_entries_map_update(s.drop_last(), i, key, value);
        assert(s.last().0@ != key@);
        assert(entries_map(s.drop_last()).insert(key@, value@).insert(s.last().0@, s.last().1@)
            =~= entries_map(s.drop_last()).insert(s.last().0@, s.last().1@).insert(key@, value@));
    }
}

/// Entry sequences equal view for view stand for one map.
pub(crate) proof fn lemma_entries_map_congruent<V: View>(
    s1: Seq<(Vec<u8>, V)>,
    s2: Seq<(Vec<u8>, V)>,
)
    requires
        s1.len() == s2.len(),
        forall|i: int|
            0 <= i < s1.len() ==> (#[trigger] s1[i]).0@ == s2[i].0@ && s1[i].1@ == s2[i].1@,
    ensures
        entries_map(s1) == entries_map(s2),
    decreases s1.len(),
{
    if s1.len() > 0 {
        assert(forall|i: int|
            0 <= i < s1.drop_last().len() ==> (#[trigger] s1.drop_last()[i]).0@
                == s2.drop_last()[i].0@ && s1.drop_last()[i].1@ == s2.drop_last()[i].1@);
        lemma_entries_map_congruent(s1.drop_last(), s2.drop_last());
        assert(s1.last().0@ == s2.last().0@ && s1.last().1@ == s2.last().1@);
    }
}

impl<V: View> ByteMap<V> {
    /// The map this store stands for.
    pub(crate) open spec fn to_map(&self) -> Map<Seq<u8>, V::V> {
        entries_map(self.entries@)
    }

    /// No key is held twice.
    pub(crate) open spec fn wf(&self) -> bool {
        unique_keys(self.entries@)
    }

    /// An empty store.
    pub(crate) fn new() -> (r: ByteMap<V>)
        ensures
            r.wf(),
            r.to_map() == Map::<Seq<u8>, V::V>::empty(),
    {
        ByteMap { entries: Vec::new() }
    }

    /// Looks a key up.
    pub(crate) fn get(&self, key: &Vec<u8>) -> (r: Option<&V>)
        requires
            self.wf(),
        ensures
            match r {
                Some(v) => self.to_map().contains_key(key@) && v@ == self.to_map()[key@],
                None => !self.to_map().contains_key(key@),
            },
    {
        let n = self.entries.len();
        let mut i: usize = 0;
        while i < n
            invariant
                self.wf(),
                n == self.entries@.len(),
                i <= n,
                forall|j: int| 0 <= j < i ==> (#[trigger] self.entries@[j]).0@ != key@,
            decreases n - i,
        {
            let e = &self.entries[i];
            if bytes_eq(&e.0, key) {
                proof {
                    lemma_entries_map_index(self.entries@, i as int);
                }
                return Some(&e.1);
            }
            i = i + 1;
        }
        proof {
            lemma_entries_map_absent(self.entries@, key@);
        }
        None
    }

    /// Unconditional upsert: binds the key to the value, replacing any
    /// earlier binding.
    pub(crate) fn insert(&mut self, key: Vec<u8>, value: V)
        requires
            old(self).wf(),
        ensures
            final(self).wf(),
            final(self).to_map() == old(self).to_map().insert(key@, value@),
    {
        let n = self.entries.len();
        let mut i: usize = 0;
        while i < n
            invariant
                self.wf(),
                self.entries@ == old(self).entries@,
                n == self.entries@.len(),
                i <= n,
                forall|j: int| 0 <= j < i ==> (#[trigger] self.entries@[j]).0@ != key@,
            decreases n - i,
        {
            let hit = {
                let e = &self.entries[i];
                bytes_eq(&e.0, &key)
            };
            if hit {
                proof {
                    lemma_entries_map_update(self.entries@, i as int, key, value);
                }
                let ghost before = self.entries@;
                self.entries.set(i, (key, value));
                proof {
                    assert(forall|a: int, b: int|
                        0 <= a < b < self.entries@.len() ==> (#[trigger] self.entries@[a]).0@
                            != (#[trigger] self.entries@[b]).0@) by {
                        assert(forall|a: int|
                            0 <= a < self.entries@.len() ==> (#[trigger] self.entries@[a]).0@
                                == before[a].0@);
                    }
                }
                return;
            }
            i = i + 1;
        }
        proof {
            lemma_entries_map_push(self.entries@, key, value);
        }
        self.entries.push((key, value));
    }
}

} // verus!
