//! A mapping from asset ids to keyed entries, backed by a vector.

use vstd::prelude::*;
use crate::ids::{AssetId, ids_of, id_set, contains_id, lemma_id_set_contains};
use crate::entries::RegEntry;

verus! {

broadcast use lemma_id_set_contains;

/// The mapping denoted by a sequence of keyed entries; a later entry with
/// the same id supersedes an earlier one.
pub open spec fn map_of<T: RegEntry>(s: Seq<T>) -> Map<Seq<u8>, T::V>
    decreases s.len(),
{
    if s.len() == 0 {
        Map::empty()
    } else {
        map_of(s.drop_last()).insert(s.last().key_spec(), s.last()@)
    }
}

/// No two entries of the sequence carry the same id.
pub open spec fn distinct_keys<T: RegEntry>(s: Seq<T>) -> bool {
    forall|i: int, j: int| 0 <= i < j < s.len() ==> s[i].key_spec() != s[j].key_spec()
}

/// A key is in the mapping exactly when some entry carries it.
pub proof fn lemma_map_of_contains<T: RegEntry>(s: Seq<T>, k: Seq<u8>)
    ensures
        map_of(s).contains_key(k) <==> exists|i: int| 0 <= i < s.len() && s[i].key_spec() == k,
    decreases s.len(),
{
    if s.len() > 0 {
        lemma_map_of_contains(s.drop_last(), k);
        if s.last().key_spec() == k {
            assert(s[s.len() - 1].key_spec() == k);
        } else {
            if map_of(s).contains_key(k) {
                let i = choose|i: int| 0 <= i < s.len() - 1 && s.drop_last()[i].key_spec() == k;
                assert(s[i].key_spec() == k);
            }
            if exists|i: int| 0 <= i < s.len() && s[i].key_spec() == k {
                let i = choose|i: int| 0 <= i < s.len() && s[i].key_spec() == k;
                assert(i < s.len() - 1);
                assert(s.drop_last()[i].key_spec() == k);
            }
        }
    }
}

/// With distinct keys the mapping holds each entry at its own id.
pub proof fn lemma_map_of_index<T: RegEntry>(s: Seq<T>, i: int)
    requires
        distinct_keys(s),
        0 <= i < s.len(),
    ensures
        map_of(s).contains_key(s[i].key_spec()),
        map_of(s)[s[i].key_spec()] == s[i]@,
    decreases s.len(),
{
    if i < s.len() - 1 {
        assert(distinct_keys(s.drop_last()));
        lemma_map_of_index(s.drop_last(), i);
        assert(s.drop_last()[i] == s[i]);
        assert(s[i].key_spec() != s.last().key_spec());
    }
}

/// With distinct keys the mapping has exactly one pair per entry.
pub proof fn lemma_map_of_len<T: RegEntry>(s: Seq<T>)
    requires
        distinct_keys(s),
    ensures
        map_of(s).dom().finite(),
        map_of(s).len() == s.len(),
    decreases s.len(),
{
    if s.len() > 0 {
        assert(distinct_keys(s.drop_last()));
        lemma_map_of_len(s.drop_last());
        lemma_map_of_contains(s.drop_last(), s.last().key_spec());
        assert(forall|i: int|
            0 <= i < s.len() - 1 ==> s.drop_last()[i].key_spec() != s.last().key_spec());
        assert(!map_of(s.drop_last()).contains_key(s.last().key_spec()));
    }
}

/// Entry sequences that agree pointwise on keys and views denote one mapping.
pub proof fn lemma_map_of_congruent<T: RegEntry>(s1: Seq<T>, s2: Seq<T>)
    requires
        s1.len() == s2.len(),
        forall|i: int|
            0 <= i < s1.len() ==> s1[i].key_spec() == s2[i].key_spec() && s1[i]@ == s2[i]@,
    ensures
        map_of(s1) == map_of(s2),
    decreases s1.len(),
{
    if s1.len() > 0 {
        assert(forall|i: int|
            0 <= i < s1.len() - 1 ==> s1.drop_last()[i].key_spec() == s2.drop_last()[i].key_spec()
                && s1.drop_last()[i]@ == s2.drop_last()[i]@);
        lemma_map_of_congruent(s1.drop_last(), s2.drop_last());
        assert(s1[s1.len() - 1].key_spec() == s2[s2.len() - 1].key_spec());
        assert(s1[s1.len() - 1]@ == s2[s2.len() - 1]@);
    }
}

/// Replacing the entry at a position by one with the same id updates the
/// mapping at that id.
pub proof fn lemma_map_of_update<T: RegEntry>(s: Seq<T>, i: int, e: T)
    requires
        distinct_keys(s),
        0 <= i < s.len(),
        e.key_spec() == s[i].key_spec(),
    ensures
        map_of(s.update(i, e)) == map_of(s).insert(e.key_spec(), e@),
        distinct_keys(s.update(i, e)),
    decreases s.len(),
{
    let t = s.update(i, e);
    assert(forall|j: int, l: int| 0 <= j < l < t.len() ==> t[j].key_spec() != t[l].key_spec());
    if i == s.len() - 1 {
        assert(t.drop_last() =~= s.drop_last());
        assert(t.last() == e);
        assert(map_of(s).insert(e.key_spec(), e@) =~= map_of(s.drop_last()).insert(
            e.key_spec(),
            e@,
        ));
    } else {
        assert(distinct_keys(s.drop_last()));
        assert(s.drop_last()[i] == s[i]);
        lemma_map_of_update(s.drop_last(), i, e);
        assert(t.drop_last() =~= s.drop_last().update(i, e));
        assert(t.last() == s.last());
        assert(s[i].key_spec() != s.last().key_spec());
        assert(map_of(t) == map_of(s.drop_last().update(i, e)).insert(
            s.last().key_spec(),
            s.last()@,
        ));
        assert(map_of(s.drop_last()).insert(e.key_spec(), e@).insert(
            s.last().key_spec(),
            s.last()@,
        ) =~= map_of(s.drop_last()).insert(s.last().key_spec(), s.last()@).insert(
            e.key_spec(),
            e@,
        ));
    }
}

/// A mapping from asset ids to entries, backed by a vector with pairwise
/// distinct ids.
#[derive(Debug, Clone, PartialEq, Eq)]
pub struct EntryMap<T> {
    /// The entries, one per id.
    pub entries: Vec<T>,
}

impl<T: RegEntry> View for EntryMap<T> {
    type V = Map<Seq<u8>, T::V>;

    open spec fn view(&self) -> Map<Seq<u8>, T::V> {
        map_of(self.entries@)
    }
}

impl<T: RegEntry> EntryMap<T> {
    /// Each id occurs at most once among the entries.
    pub open spec fn wf(&self) -> bool {
        distinct_keys(self.entries@)
    }

    /// The empty mapping.
    pub fn new() -> (r: Self)
        ensures
            r@ == Map::<Seq<u8>, T::V>::empty(),
            r.wf(),
    {
        EntryMap { entries: Vec::new() }
    }

    /// How many ids are mapped.
    pub fn len(&self) -> (n: usize)
        requires
            self.wf(),
        ensures
            n == self@.len(),
    {
        proof {
            lemma_map_of_len(self.entries@);
        }
        self.entries.len()
    }

    /// Whether the mapping is empty.
    pub fn is_empty(&self) -> (r: bool)
        requires
            self.wf(),
        ensures
            r == (self@.len() == 0),
    {
        self.len() == 0
    }

    /// The position of the entry carrying `id`, if any.
    fn index_of(&self, id: &AssetId) -> (r: Option<usize>)
        ensures
            match r {
                Some(i) => i < self.entries@.len() && self.entries@[i as int].key_spec() == id@,
                None => forall|j: int|
                    0 <= j < self.entries@.len() ==> self.entries@[j].key_spec() != id@,
            },
    {
        let mut i: usize = 0;
        while i < self.entries.len()
            invariant
                i <= self.entries@.len(),
                forall|j: int| 0 <= j < i ==> self.entries@[j].key_spec() != id@,
            decreases self.entries@.len() - i,
        {
            if self.entries[i].key().eq_id(id) {
                return Some(i);
            }
            i += 1;
        }
        None
    }

    /// Whether some entry carries `id`.
    pub fn contains_key(&self, id: &AssetId) -> (r: bool)
        ensures
            r == self@.contains_key(id@),
    {
        proof {
            lemma_map_of_contains(self.entries@, id@);
        }
        match self.index_of(id) {
            Some(_) => true,
            None => false,
        }
    }

    /// The entry carrying `id`, if any.
    pub fn get<'a>(&'a self, id: &AssetId) -> (r: Option<&'a T>)
        requires
            self.wf(),
        ensures
            match r {
                Some(e) => self@.contains_key(id@) && e@ == self@[id@] && e.key_spec() == id@,
                None => !self@.contains_key(id@),
            },
    {
        proof {
            lemma_map_of_contains(self.entries@, id@);
        }
        match self.index_of(id) {
            Some(i) => {
                proof {
                    lemma_map_of_index(self.entries@, i as int);
                }
                Some(&self.entries[i])
            },
            None => None,
        }
    }

    /// Maps the entry's id to the entry; a same-id entry is superseded.
    pub fn insert(&mut self, e: T)
        requires
            old(self).wf(),
        ensures
            final(self)@ == old(self)@.insert(e.key_spec(), e@),
            final(self).wf(),
    {
        let idx = self.index_of(e.key());
        match idx {
            Some(i) => {
                proof {
                    lemma_map_of_update(self.entries@, i as int, e);
                }
                self.entries.set(i, e);
            },
            None => {
                let ghost s = self.entries@;
                self.entries.push(e);
                proof {
                    assert(self.entries@.drop_last() =~= s);
                    assert(distinct_keys(self.entries@));
                }
            },
        }
    }

    /// The mapping denoted by a sequence of entries, later entries winning.
    pub fn from_entries(v: Vec<T>) -> (r: Self)
        ensures
            r@ == map_of(v@),
            r.wf(),
    {
        let mut r = EntryMap::<T>::new();
        let mut i: usize = 0;
        while i < v.len()
            invariant
                i <= v@.len(),
                r.wf(),
                r@ == map_of(v@.take(i as int)),
            decreases v@.len() - i,
        {
            r.insert(v[i].dup());
            i += 1;
            proof {
                assert(v@.take(i as int).drop_last() =~= v@.take(i - 1));
                assert(v@.take(i as int).last() == v@[i - 1]);
            }
        }
        proof {
            assert(v@.take(v@.len() as int) =~= v@);
        }
        r
    }

    /// A fresh mapping with the same contents.
    pub fn duplicate(&self) -> (r: Self)
        requires
            self.wf(),
        ensures
            r@ == self@,
            r.wf(),
    {
        let mut entries: Vec<T> = Vec::new();
        let mut i: usize = 0;
        while i < self.entries.len()
            invariant
                i <= self.entries@.len(),
                entries@.len() == i,
                forall|j: int|
                    0 <= j < i ==> entries@[j].key_spec() == self.entries@[j].key_spec()
                        && entries@[j]@ == self.entries@[j]@,
            decreases self.entries@.len() - i,
        {
            entries.push(self.entries[i].dup());
            i += 1;
        }
        proof {
            lemma_map_of_congruent(entries@, self.entries@);
        }
        EntryMap { entries }
    }

    /// Adds every pair of `other`; on a shared id the entry of `other` wins.
    pub fn extend(&mut self, other: Self)
        requires
            old(self).wf(),
        ensures
            final(self)@ == old(self)@.union_prefer_right(other@),
            final(self).wf(),
    {
        let mut i: usize = 0;
        while i < other.entries.len()
            invariant
                i <= other.entries@.len(),
                self.wf(),
                self@ == old(self)@.union_prefer_right(map_of(other.entries@.take(i as int))),
            decreases other.entries@.len() - i,
        {
            self.insert(other.entries[i].dup());
            i += 1;
            proof {
                assert(other.entries@.take(i as int).drop_last() =~= other.entries@.take(i - 1));
                assert(other.entries@.take(i as int).last() == other.entries@[i - 1]);
                let k = other.entries@[i - 1].key_spec();
                let v = other.entries@[i - 1]@;
                assert(old(self)@.union_prefer_right(map_of(other.entries@.take(i - 1))).insert(
                    k,
                    v,
                ) =~= old(self)@.union_prefer_right(
                    map_of(other.entries@.take(i - 1)).insert(k, v),
                ));
            }
        }
        proof {
            assert(other.entries@.take(other.entries@.len() as int) =~= other.entries@);
        }
    }

    /// The sub-mapping at the given ids, as a fresh mapping.
    pub fn restricted(&self, ids: &Vec<AssetId>) -> (r: Self)
        requires
            self.wf(),
        ensures
            r@ == self@.restrict(id_set(ids@)),
            r.wf(),
    {
        let mut entries: Vec<T> = Vec::new();
        let mut i: usize = 0;
        while i < self.entries.len()
            invariant
                i <= self.entries@.len(),
                distinct_keys(self.entries@),
                distinct_keys(entries@),
                map_of(entries@) == map_of(self.entries@.take(i as int)).restrict(id_set(ids@)),
            decreases self.entries@.len() - i,
        {
            let e = &self.entries[i];
            let ghost k = e.key_spec();
            let ghost pre = entries@;
            let hit = contains_id(ids, e.key());
            proof {
                assert(hit == id_set(ids@).contains(k));
            }
            if hit {
                entries.push(e.dup());
                proof {
                    lemma_map_of_contains(pre, k);
                    lemma_map_of_contains(self.entries@.take(i as int), k);
                    if exists|j: int| 0 <= j < pre.len() && pre[j].key_spec() == k {
                        assert(map_of(pre).contains_key(k));
                        assert(map_of(self.entries@.take(i as int)).contains_key(k));
                        let l = choose|l: int|
                            0 <= l < i && self.entries@.take(i as int)[l].key_spec() == k;
                        assert(self.entries@[l].key_spec() == k);
                        assert(false);
                    }
                    assert(forall|j: int| 0 <= j < pre.len() ==> pre[j].key_spec() != k);
                    assert(entries@.drop_last() =~= pre);
                    assert(distinct_keys(entries@));
                    assert(entries@.last().key_spec() == k);
                    assert(entries@.last()@ == self.entries@[i as int]@);
                    assert(map_of(entries@) == map_of(pre).insert(
                        k,
                        self.entries@[i as int]@,
                    ));
                }
            }
            i += 1;
            proof {
                assert(self.entries@.take(i as int).drop_last() =~= self.entries@.take(i - 1));
                assert(self.entries@.take(i as int).last() == self.entries@[i - 1]);
                if id_set(ids@).contains(k) {
                    assert(map_of(self.entries@.take(i as int)).restrict(id_set(ids@))
                        =~= map_of(self.entries@.take(i - 1)).restrict(id_set(ids@)).insert(
                        k,
                        self.entries@[i - 1]@,
                    ));
                } else {
                    assert(map_of(self.entries@.take(i as int)).restrict(id_set(ids@))
                        =~= map_of(self.entries@.take(i - 1)).restrict(id_set(ids@)));
                }
            }
        }
        proof {
            assert(self.entries@.take(self.entries@.len() as int) =~= self.entries@);
        }
        EntryMap { entries }
    }
}

} // verus!
