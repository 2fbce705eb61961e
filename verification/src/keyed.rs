//! A small map from feature keys to values that keeps insertion order and
//! never holds a key twice. Backs `FeatureBundle` and `FeatureRegistry`.

use vstd::prelude::*;

use crate::feature::FeatureKey;

verus! {

/// The keys (as character sequences) of a list of entries.
pub open spec fn entry_keys<V>(s: Seq<(FeatureKey, V)>) -> Seq<Seq<char>> {
    s.map_values(|e: (FeatureKey, V)| e.0@)
}

/// Index of the entry with key `k` (meaningful when there is one).
pub open spec fn entry_index<V>(s: Seq<(FeatureKey, V)>, k: Seq<char>) -> int {
    choose|i: int| 0 <= i < s.len() && s[i].0@ == k
}

/// The map that a list of entries with distinct keys stands for.
pub open spec fn entries_map<V>(s: Seq<(FeatureKey, V)>) -> Map<Seq<char>, V> {
    Map::new(
        |k: Seq<char>| exists|i: int| 0 <= i < s.len() && s[i].0@ == k,
        |k: Seq<char>| s[entry_index(s, k)].1,
    )
}

pub open spec fn distinct_keys<V>(s: Seq<(FeatureKey, V)>) -> bool {
    forall|i: int, j: int| 0 <= i < s.len() && 0 <= j < s.len() && i != j ==> s[i].0@ != s[j].0@
}

pub proof fn lemma_entries_map_at<V>(s: Seq<(FeatureKey, V)>, i: int)
    requires
        distinct_keys(s),
        0 <= i < s.len(),
    ensures
        entries_map(s).contains_key(s[i].0@),
        entries_map(s)[s[i].0@] == s[i].1,
        entry_index(s, s[i].0@) == i,
{
    let k = s[i].0@;
    assert(exists|j: int| 0 <= j < s.len() && s[j].0@ == k);
    let j = entry_index(s, k);
    assert(j == i);
}

pub proof fn lemma_entries_map_push<V>(s: Seq<(FeatureKey, V)>, k: FeatureKey, v: V)
    requires
        distinct_keys(s),
        !entries_map(s).contains_key(k@),
    ensures
        distinct_keys(s.push((k, v))),
        entries_map(s.push((k, v))) == entries_map(s).insert(k@, v),
{
    let t = s.push((k, v));
    assert forall|i: int, j: int| 0 <= i < t.len() && 0 <= j < t.len() && i != j implies t[i].0@ != t[j].0@ by {
        if i == s.len() as int {
            assert(!(0 <= j < s.len() && s[j].0@ == k@));
        } else if j == s.len() as int {
            assert(!(0 <= i < s.len() && s[i].0@ == k@));
        }
    }
    assert forall|q: Seq<char>| #[trigger] entries_map(t).contains_key(q) implies entries_map(t)[q] == entries_map(s).insert(k@, v)[q] by {
        let i = entry_index(t, q);
        lemma_entries_map_at(t, i);
        if i < s.len() {
            lemma_entries_map_at(s, i);
        }
    }
    assert forall|q: Seq<char>| #[trigger] entries_map(s).insert(k@, v).contains_key(q) implies entries_map(t).contains_key(q) by {
        if q == k@ {
            assert(t[s.len() as int].0@ == q);
        } else {
            let i = entry_index(s, q);
            assert(t[i].0@ == q);
        }
    }
    assert(entries_map(t) =~= entries_map(s).insert(k@, v));
}

pub proof fn lemma_entries_map_update<V>(s: Seq<(FeatureKey, V)>, i: int, k: FeatureKey, v: V)
    requires
        distinct_keys(s),
        0 <= i < s.len(),
        s[i].0@ == k@,
    ensures
        distinct_keys(s.update(i, (k, v))),
        entries_map(s.update(i, (k, v))) == entries_map(s).insert(k@, v),
{
    let t = s.update(i, (k, v));
    assert forall|a: int, b: int| 0 <= a < t.len() && 0 <= b < t.len() && a != b implies t[a].0@ != t[b].0@ by {
        assert(s[a].0@ == t[a].0@);
        assert(s[b].0@ == t[b].0@);
    }
    assert forall|q: Seq<char>| #[trigger] entries_map(t).contains_key(q) implies entries_map(t)[q] == entries_map(s).insert(k@, v)[q] by {
        let j = entry_index(t, q);
        lemma_entries_map_at(t, j);
        lemma_entries_map_at(s, j);
    }
    assert forall|q: Seq<char>| #[trigger] entries_map(s).insert(k@, v).contains_key(q) implies entries_map(t).contains_key(q) by {
        if q == k@ {
            assert(t[i].0@ == q);
        } else {
            let j = entry_index(s, q);
            assert(t[j].0@ == q);
        }
    }
    assert forall|q: Seq<char>| #[trigger] entries_map(t).contains_key(q) implies entries_map(s).insert(k@, v).contains_key(q) by {
        let j = entry_index(t, q);
        assert(s[j].0@ == t[j].0@);
    }
    assert(entries_map(t) =~= entries_map(s).insert(k@, v));
}

pub proof fn lemma_entries_map_len<V>(s: Seq<(FeatureKey, V)>)
    requires
        distinct_keys(s),
    ensures
        entries_map(s).dom() == entry_keys(s).to_set(),
        entries_map(s).dom().len() == s.len(),
{
    let ks = entry_keys(s);
    assert(ks.no_duplicates()) by {
        assert forall|i: int, j: int| 0 <= i < ks.len() && 0 <= j < ks.len() && i != j implies ks[i] != ks[j] by {
            assert(ks[i] == s[i].0@);
            assert(ks[j] == s[j].0@);
        }
    }
    assert forall|q: Seq<char>| #[trigger] entries_map(s).dom().contains(q) <==> ks.to_set().contains(q) by {
        if entries_map(s).dom().contains(q) {
            let i = entry_index(s, q);
            assert(ks[i] == q);
        }
        if ks.to_set().contains(q) {
            let i = choose|i: int| 0 <= i < ks.len() && ks[i] == q;
            assert(s[i].0@ == q);
        }
    }
    assert(entries_map(s).dom() =~= ks.to_set());
    ks.unique_seq_to_set();
}

/// Entries keyed by feature key, in insertion order, each key at most once.
#[derive(Debug)]
pub struct KeyedEntries<V> {
    entries: Vec<(FeatureKey, V)>,
}

impl<V> KeyedEntries<V> {
    #[verifier::type_invariant]
    spec fn inv(self) -> bool {
        distinct_keys(self.entries@)
    }

    /// The entries, in insertion order.
    pub closed spec fn entries(self) -> Seq<(FeatureKey, V)> {
        self.entries@
    }

    /// The map from key to value.
    pub closed spec fn map(self) -> Map<Seq<char>, V> {
        entries_map(self.entries@)
    }

    pub fn new() -> (r: Self)
        ensures
            r.entries() == Seq::<(FeatureKey, V)>::empty(),
            r.map() == Map::<Seq<char>, V>::empty(),
    {
        let r = KeyedEntries { entries: Vec::new() };
        assert(entries_map(r.entries@) =~= Map::<Seq<char>, V>::empty());
        r
    }

    fn position(&self, key: &FeatureKey) -> (r: Option<usize>)
        ensures
            match r {
                Some(i) => i < self.entries().len() && self.entries()[i as int].0@ == key@,
                None => !self.map().contains_key(key@),
            },
    {
        let mut i: usize = 0;
        while i < self.entries.len()
            invariant
                i <= self.entries@.len(),
                forall|j: int| 0 <= j < i ==> self.entries@[j].0@ != key@,
            decreases self.entries@.len() - i,
        {
            if self.entries[i].0.eq_key(key) {
                return Some(i);
            }
            i = i + 1;
        }
        None
    }

    /// Value under `key`.
    pub fn get(&self, key: &FeatureKey) -> (r: Option<&V>)
        ensures
            match r {
                Some(v) => self.map().contains_key(key@) && self.map()[key@] == *v,
                None => !self.map().contains_key(key@),
            },
    {
        proof {
            use_type_invariant(self);
        }
        match self.position(key) {
            Some(i) => {
                proof {
                    lemma_entries_map_at(self.entries@, i as int);
                }
                Some(&self.entries[i].1)
            },
            None => None,
        }
    }

    /// Insert or replace the value under `key`; returns the previous value.
    pub fn insert(&mut self, key: FeatureKey, value: V) -> (r: Option<V>)
        ensures
            final(self).map() == old(self).map().insert(key@, value),
            match r {
                Some(v) => old(self).map().contains_key(key@) && old(self).map()[key@] == v,
                None => !old(self).map().contains_key(key@),
            },
            old(self).map().contains_key(key@) ==> exists|i: int|
                0 <= i < old(self).entries().len() && old(self).entries()[i].0@ == key@ && final(self).entries()
                    == old(self).entries().update(i, (key, value)),
            !old(self).map().contains_key(key@) ==> final(self).entries() == old(self).entries().push((key, value)),
    {
        proof {
            use_type_invariant(&*self);
        }
        match self.position(&key) {
            Some(i) => {
                proof {
                    lemma_entries_map_at(self.entries@, i as int);
                    lemma_entries_map_update(self.entries@, i as int, key, value);
                }
                let mut entries: Vec<(FeatureKey, V)> = Vec::new();
                std::mem::swap(&mut entries, &mut self.entries);
                let old_entry = entries.remove(i);
                entries.insert(i, (key, value));
                assert(entries@ =~= old(self).entries@.update(i as int, (key, value)));
                self.entries = entries;
                Some(old_entry.1)
            },
            None => {
                proof {
                    lemma_entries_map_push(self.entries@, key, value);
                }
                let mut entries: Vec<(FeatureKey, V)> = Vec::new();
                std::mem::swap(&mut entries, &mut self.entries);
                entries.push((key, value));
                self.entries = entries;
                None
            },
        }
    }

    /// Number of entries.
    pub fn len(&self) -> (n: usize)
        ensures
            n == self.map().dom().len(),
            n == self.entries().len(),
    {
        proof {
            use_type_invariant(self);
            lemma_entries_map_len(self.entries@);
        }
        self.entries.len()
    }

    /// The entries, in insertion order.
    pub fn as_slice(&self) -> (r: &[(FeatureKey, V)])
        ensures
            r@ == self.entries(),
            distinct_keys(self.entries()),
            self.map() == entries_map(self.entries()),
    {
        proof {
            use_type_invariant(self);
        }
        self.entries.as_slice()
    }
}

} // verus!
