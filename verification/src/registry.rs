//! Feature registry — typed lookup + Levenshtein typo detection.
//!
//! Providers register their FeatureDescriptors here. When scenes are loaded,
//! every feature reference is checked against the registry; unknown keys give
//! `Error::UnknownFeature` with a `did_you_mean` suggestion.

use vstd::prelude::*;

use crate::error::Error;
use crate::feature::{FeatureDescriptor, FeatureKey};
use crate::keyed::KeyedEntries;

verus! {

pub open spec fn min_nat(a: nat, b: nat) -> nat {
    if a <= b { a } else { b }
}

/// Levenshtein distance: the least number of single-character insertions,
/// deletions and substitutions that turn `a` into `b`.
pub open spec fn levenshtein(a: Seq<char>, b: Seq<char>) -> nat
    decreases a.len() + b.len(),
{
    if a.len() == 0 {
        b.len()
    } else if b.len() == 0 {
        a.len()
    } else {
        min_nat(
            min_nat(levenshtein(a.drop_last(), b) + 1, levenshtein(a, b.drop_last()) + 1),
            levenshtein(a.drop_last(), b.drop_last()) + if a.last() == b.last() { 0nat } else { 1nat },
        )
    }
}

/// `strsim::levenshtein`: the Levenshtein distance between the character
/// sequences of `a` and `b` (the contract states the distance itself).
#[verifier::external_body]
fn levenshtein_distance(a: &str, b: &str) -> (d: usize)
    ensures
        d == levenshtein(a@, b@),
{
    strsim::levenshtein(a, b)
}

/// Suggestions farther than this many edits are not offered.
pub const MAX_SUGGESTION_DISTANCE: usize = 3;

/// The closest registered key to `q` within `MAX_SUGGESTION_DISTANCE` edits,
/// the earliest registered one among equally close keys.
pub open spec fn closest_spec(keys: Seq<Seq<char>>, q: Seq<char>) -> Option<Seq<char>> {
    if exists|i: int| 0 <= i < keys.len() && levenshtein(q, #[trigger] keys[i]) <= 3 {
        let i = choose|i: int|
            0 <= i < keys.len() && levenshtein(q, #[trigger] keys[i]) <= 3 && (forall|j: int|
                0 <= j < keys.len() ==> levenshtein(q, #[trigger] keys[j]) >= levenshtein(q, keys[i])) && (
            forall|j: int| 0 <= j < i ==> levenshtein(q, #[trigger] keys[j]) > levenshtein(q, keys[i]));
        Some(keys[i])
    } else {
        None
    }
}

/// Among the first `n` keys, the earliest one closest to `q`.
proof fn lemma_earliest_closest(keys: Seq<Seq<char>>, q: Seq<char>, n: int) -> (i: int)
    requires
        1 <= n <= keys.len(),
    ensures
        0 <= i < n,
        forall|j: int| 0 <= j < n ==> levenshtein(q, #[trigger] keys[j]) >= levenshtein(q, keys[i]),
        forall|j: int| 0 <= j < i ==> levenshtein(q, #[trigger] keys[j]) > levenshtein(q, keys[i]),
    decreases n,
{
    if n == 1 {
        0
    } else {
        let k = lemma_earliest_closest(keys, q, n - 1);
        if levenshtein(q, keys[n - 1]) < levenshtein(q, keys[k]) {
            n - 1
        } else {
            k
        }
    }
}

/// The suggestion exists exactly when some key is within
/// `MAX_SUGGESTION_DISTANCE` edits of `q`, and then it is a registered key
/// at the least distance from `q`, the earliest such key.
pub proof fn lemma_closest_spec(keys: Seq<Seq<char>>, q: Seq<char>)
    ensures
        closest_spec(keys, q) is Some <==> exists|i: int| 0 <= i < keys.len() && levenshtein(q, #[trigger] keys[i]) <= 3,
        closest_spec(keys, q) matches Some(k) ==> exists|i: int|
            0 <= i < keys.len() && keys[i] == k && levenshtein(q, k) <= 3 && (forall|j: int|
                0 <= j < keys.len() ==> levenshtein(q, #[trigger] keys[j]) >= levenshtein(q, k)) && (forall|j: int|
                0 <= j < i ==> levenshtein(q, #[trigger] keys[j]) > levenshtein(q, k)),
{
    if exists|i: int| 0 <= i < keys.len() && levenshtein(q, #[trigger] keys[i]) <= 3 {
        let w = choose|i: int| 0 <= i < keys.len() && levenshtein(q, #[trigger] keys[i]) <= 3;
        let i = lemma_earliest_closest(keys, q, keys.len() as int);
        assert(levenshtein(q, keys[w]) >= levenshtein(q, keys[i]));
        assert(levenshtein(q, keys[i]) <= 3);
        let c = choose|i: int|
            0 <= i < keys.len() && levenshtein(q, #[trigger] keys[i]) <= 3 && (forall|j: int|
                0 <= j < keys.len() ==> levenshtein(q, #[trigger] keys[j]) >= levenshtein(q, keys[i])) && (
            forall|j: int| 0 <= j < i ==> levenshtein(q, #[trigger] keys[j]) > levenshtein(q, keys[i]));
        assert(closest_spec(keys, q) == Some(keys[c]));
    }
}

/// Registry of known feature descriptors, in registration order.
#[derive(Debug)]
pub struct FeatureRegistry {
    by_key: KeyedEntries<FeatureDescriptor>,
}

impl View for FeatureRegistry {
    type V = Map<Seq<char>, FeatureDescriptor>;

    closed spec fn view(&self) -> Map<Seq<char>, FeatureDescriptor> {
        self.by_key.map()
    }
}

impl FeatureRegistry {
    /// Registered keys, in registration order.
    pub closed spec fn keys(&self) -> Seq<Seq<char>> {
        crate::keyed::entry_keys(self.by_key.entries())
    }

    /// Empty registry.
    pub fn new() -> (r: Self)
        ensures
            r@ == Map::<Seq<char>, FeatureDescriptor>::empty(),
            r.keys().len() == 0,
    {
        FeatureRegistry { by_key: KeyedEntries::new() }
    }

    /// Register a descriptor. Replaces any previous one with the same key,
    /// which is returned.
    pub fn register(&mut self, descriptor: FeatureDescriptor) -> (r: Option<FeatureDescriptor>)
        ensures
            final(self)@ == old(self)@.insert(descriptor.key@, descriptor),
            match r {
                Some(d) => old(self)@.contains_key(descriptor.key@) && old(self)@[descriptor.key@] == d,
                None => !old(self)@.contains_key(descriptor.key@),
            },
            old(self)@.contains_key(descriptor.key@) ==> final(self).keys() == old(self).keys(),
            !old(self)@.contains_key(descriptor.key@) ==> final(self).keys() == old(self).keys().push(descriptor.key@),
    {
        let key = descriptor.key.clone();
        let r = self.by_key.insert(key, descriptor);
        proof {
            if old(self)@.contains_key(descriptor.key@) {
                let i = choose|i: int|
                    0 <= i < old(self).by_key.entries().len() && old(self).by_key.entries()[i].0@ == descriptor.key@
                        && final(self).by_key.entries() == old(self).by_key.entries().update(i, (descriptor.key, descriptor));
                assert(final(self).keys() =~= old(self).keys());
            } else {
                assert(final(self).keys() =~= old(self).keys().push(descriptor.key@));
            }
        }
        r
    }

    /// Look up a descriptor by key.
    pub fn get(&self, key: &FeatureKey) -> (r: Option<&FeatureDescriptor>)
        ensures
            match r {
                Some(d) => self@.contains_key(key@) && self@[key@] == *d,
                None => !self@.contains_key(key@),
            },
    {
        self.by_key.get(key)
    }

    /// All registered descriptors, in registration order.
    pub fn iter(&self) -> (r: &[(FeatureKey, FeatureDescriptor)])
        ensures
            crate::keyed::entry_keys(r@) == self.keys(),
            crate::keyed::entries_map(r@) == self@,
    {
        self.by_key.as_slice()
    }

    /// Number of registered descriptors.
    pub fn len(&self) -> (n: usize)
        ensures
            n == self@.dom().len(),
            n == self.keys().len(),
    {
        self.by_key.len()
    }

    /// Whether the registry is empty.
    pub fn is_empty(&self) -> (r: bool)
        ensures
            r == (self@.dom().len() == 0),
            r == (self.keys().len() == 0),
    {
        self.by_key.len() == 0
    }

    /// Find the closest known key by Levenshtein distance, for `did you
    /// mean?` messages. `None` when every key is more than 3 edits away (or
    /// the registry is empty); among equally close keys, the earliest
    /// registered.
    pub fn closest_key(&self, query: &str) -> (r: Option<String>)
        ensures
            opt_seq(r) == closest_spec(self.keys(), query@),
    {
        let entries = self.by_key.as_slice();
        let ghost keys = self.keys();
        assert(keys.len() == entries@.len());
        let mut best: Option<(usize, usize)> = None;
        let mut i: usize = 0;
        while i < entries.len()
            invariant
                keys == self.keys(),
                keys == crate::keyed::entry_keys(entries@),
                i <= entries@.len(),
                match best {
                    None => forall|j: int| 0 <= j < i ==> levenshtein(query@, #[trigger] keys[j]) > 3,
                    Some((bi, bd)) => {
                        &&& bi < i
                        &&& bd == levenshtein(query@, keys[bi as int])
                        &&& bd <= 3
                        &&& forall|j: int| 0 <= j < i && levenshtein(query@, #[trigger] keys[j]) <= 3
                            ==> levenshtein(query@, keys[j]) >= bd
                        &&& forall|j: int| 0 <= j < bi ==> levenshtein(query@, #[trigger] keys[j]) > bd
                    },
                },
            decreases entries@.len() - i,
        {
            let d = levenshtein_distance(query, entries[i].0.as_str());
            assert(keys[i as int] == entries@[i as int].0@);
            if d <= MAX_SUGGESTION_DISTANCE {
                match best {
                    None => {
                        best = Some((i, d));
                    },
                    Some((_, bd)) => {
                        if d < bd {
                            best = Some((i, d));
                        }
                    },
                }
            }
            i = i + 1;
        }
        match best {
            None => None,
            Some((bi, bd)) => {
                let k = entries[bi].0.as_str().to_owned();
                proof {
                    assert(keys[bi as int] == entries@[bi as int].0@);
                    assert(forall|j: int| 0 <= j < keys.len() ==> levenshtein(query@, #[trigger] keys[j]) >= bd);
                    let w = choose|w: int|
                        0 <= w < keys.len() && levenshtein(query@, #[trigger] keys[w]) <= 3 && (forall|j: int|
                            0 <= j < keys.len() ==> levenshtein(query@, #[trigger] keys[j]) >= levenshtein(query@, keys[w]))
                            && (forall|j: int| 0 <= j < w ==> levenshtein(query@, #[trigger] keys[j]) > levenshtein(
                            query@,
                            keys[w],
                        ));
                    assert(w == bi as int) by {
                        if w < bi {
                            assert(levenshtein(query@, keys[w]) > bd);
                        } else if w > bi {
                            assert(levenshtein(query@, keys[bi as int]) > levenshtein(query@, keys[w]));
                        }
                    }
                }
                Some(k)
            },
        }
    }

    /// Resolve a key, returning `Error::UnknownFeature` with `did_you_mean`
    /// if the key is unknown.
    pub fn resolve_or_error(&self, key: &FeatureKey, scene_id: &str) -> (r: Result<&FeatureDescriptor, Error>)
        ensures
            match r {
                Ok(d) => self@.contains_key(key@) && self@[key@] == *d,
                Err(e) => !self@.contains_key(key@) && (e matches Error::UnknownFeature { key: k, scene_id: s, did_you_mean: m }
                    && k@ == key@ && s@ == scene_id@ && opt_seq(m) == closest_spec(self.keys(), key@)),
            },
    {
        match self.get(key) {
            Some(d) => Ok(d),
            None => Err(
                Error::UnknownFeature {
                    key: key.as_str().to_owned(),
                    scene_id: scene_id.to_owned(),
                    did_you_mean: self.closest_key(key.as_str()),
                },
            ),
        }
    }
}

pub open spec fn opt_seq(o: Option<String>) -> Option<Seq<char>> {
    match o {
        Some(s) => Some(s@),
        None => None,
    }
}

} // verus!
