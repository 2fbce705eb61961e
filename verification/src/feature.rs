//! Feature typing system — typed, unit-bearing, windowed features.
//!
//! Numbers are fixed-point: a reading `x` is held as the integer
//! `x * SCALE` (`SCALE` = 1 000 000), so `0.72` is `720_000`.

use vstd::prelude::*;

use crate::error::Error;
use crate::keyed::KeyedEntries;
use crate::text::chars_of;

verus! {

/// A character allowed inside a key segment: ASCII letter, digit or `_`.
pub open spec fn is_key_char(c: char) -> bool {
    ('a' <= c && c <= 'z') || ('A' <= c && c <= 'Z') || ('0' <= c && c <= '9') || c == '_'
}

/// `[a-zA-Z0-9_]+(\.[a-zA-Z0-9_]+)*`: non-empty, only key characters and
/// dots, no dot at either end, no two dots in a row.
pub open spec fn is_valid_key(s: Seq<char>) -> bool {
    &&& s.len() > 0
    &&& forall|i: int| 0 <= i < s.len() ==> is_key_char(#[trigger] s[i]) || s[i] == '.'
    &&& s[0] != '.'
    &&& s[s.len() - 1] != '.'
    &&& forall|i: int| 0 <= i < s.len() - 1 ==> !(#[trigger] s[i] == '.' && s[i + 1] == '.')
}

fn key_char(c: char) -> (r: bool)
    ensures
        r == is_key_char(c),
{
    ('a' <= c && c <= 'z') || ('A' <= c && c <= 'Z') || ('0' <= c && c <= '9') || c == '_'
}

/// Whether `s` is a valid feature key.
fn valid_key(s: &str) -> (ok: bool)
    ensures
        ok == is_valid_key(s@),
{
    let v = chars_of(s);
    let n = v.len();
    let mut ok = n > 0 && v[0] != '.' && v[n - 1] != '.';
    let mut i: usize = 0;
    while ok && i < n
        invariant
            v@ == s@,
            n == v@.len(),
            i <= n,
            ok ==> n > 0 && v@[0] != '.' && v@[n - 1] != '.',
            ok ==> forall|j: int| 0 <= j < i ==> is_key_char(#[trigger] v@[j]) || v@[j] == '.',
            ok ==> forall|j: int| 0 <= j < i && j + 1 < n ==> !(#[trigger] v@[j] == '.' && v@[j + 1] == '.'),
            !ok ==> !is_valid_key(s@),
        decreases n - i,
    {
        let c = v[i];
        if !(key_char(c) || c == '.') {
            ok = false;
        } else if c == '.' && i + 1 < n && v[i + 1] == '.' {
            ok = false;
        }
        i = i + 1;
    }
    ok
}

/// Typed feature key — dot-segmented namespace like `audio.voice_ratio`.
#[derive(Debug)]
pub struct FeatureKey(String);

impl View for FeatureKey {
    type V = Seq<char>;

    closed spec fn view(&self) -> Seq<char> {
        self.0@
    }
}

impl Clone for FeatureKey {
    fn clone(&self) -> (r: Self)
        ensures
            r == *self,
    {
        proof {
            use_type_invariant(self);
        }
        FeatureKey(self.0.clone())
    }
}

impl FeatureKey {
    #[verifier::type_invariant]
    spec fn inv(self) -> bool {
        is_valid_key(self.0@)
    }

    /// Build a FeatureKey, validating `[a-zA-Z0-9_]+(\.[a-zA-Z0-9_]+)*` format.
    pub fn new(s: &str) -> (r: Result<FeatureKey, Error>)
        ensures
            match r {
                Ok(k) => is_valid_key(s@) && k@ == s@,
                Err(e) => !is_valid_key(s@) && (e matches Error::InvalidFeatureKey(t) && t@ == s@),
            },
    {
        if valid_key(s) {
            Ok(FeatureKey(s.to_owned()))
        } else {
            Err(Error::InvalidFeatureKey(s.to_owned()))
        }
    }

    /// The key's text as a string value.
    pub closed spec fn text(self) -> String {
        self.0
    }

    /// The key whose text is `s` (a valid key when `s` is).
    pub closed spec fn with_text(s: String) -> FeatureKey {
        FeatureKey(s)
    }

    /// A key's text reads as the key.
    pub proof fn lemma_text(self)
        ensures
            self.text()@ == self@,
            Self::with_text(self.text()) == self,
    {
    }

    /// The key with text `s` reads as `s`.
    pub proof fn lemma_with_text(s: String)
        ensures
            Self::with_text(s)@ == s@,
            Self::with_text(s).text() == s,
    {
    }

    /// A key from text already known to be valid.
    pub(crate) fn from_valid(s: &str) -> (r: FeatureKey)
        requires
            is_valid_key(s@),
        ensures
            r@ == s@,
    {
        FeatureKey(s.to_owned())
    }

    /// String view of the key (always a valid key).
    pub fn as_str(&self) -> (r: &str)
        ensures
            r@ == self@,
            is_valid_key(r@),
    {
        proof {
            use_type_invariant(self);
        }
        self.0.as_str()
    }

    /// Whether two keys are the same.
    pub fn eq_key(&self, other: &FeatureKey) -> (r: bool)
        ensures
            r == (self@ == other@),
    {
        self.0 == other.0
    }
}

impl From<FeatureKey> for String {
    /// The key's text.
    fn from(k: FeatureKey) -> (r: String) {
        k.0
    }
}

impl vstd::std_specs::convert::FromSpecImpl<FeatureKey> for String {
    open spec fn obeys_from_spec() -> bool {
        true
    }

    open spec fn from_spec(v: FeatureKey) -> String {
        v.text()
    }
}

impl TryFrom<String> for FeatureKey {
    type Error = Error;

    /// The key with text `value`, or `InvalidFeatureKey` when it is not a
    /// valid key.
    fn try_from(value: String) -> (r: Result<FeatureKey, Error>) {
        if valid_key(value.as_str()) {
            Ok(FeatureKey(value))
        } else {
            Err(Error::InvalidFeatureKey(value))
        }
    }
}

impl vstd::std_specs::convert::TryFromSpecImpl<String> for FeatureKey {
    open spec fn obeys_try_from_spec() -> bool {
        true
    }

    open spec fn try_from_spec(v: String) -> Result<FeatureKey, Error> {
        if is_valid_key(v@) {
            Ok(FeatureKey::with_text(v))
        } else {
            Err(Error::InvalidFeatureKey(v))
        }
    }
}

/// Feature data kind with optional range / category.
#[derive(Debug)]
pub enum FeatureKind {
    /// Continuous number with optional inclusive bounds (fixed-point).
    F64 {
        /// Inclusive lower bound.
        min: Option<i64>,
        /// Inclusive upper bound.
        max: Option<i64>,
    },
    /// Boolean flag.
    Bool,
    /// Categorical — one of a fixed set of string labels.
    Category {
        /// Allowed labels.
        values: Vec<String>,
    },
    /// Dense embedding vector of fixed dimension.
    Vector {
        /// Number of dimensions.
        dim: usize,
    },
}

/// Time-window semantics for a feature value.
#[derive(Debug)]
pub enum TimeWindow {
    /// Value at a single instant.
    Instant,
    /// Sliding window aggregate over a duration.
    Sliding {
        /// Window size in milliseconds.
        ms: u64,
    },
    /// Exponentially-weighted moving average with smoothing factor
    /// (fixed-point, `0 < alpha <= SCALE`).
    Ema {
        /// Smoothing factor.
        alpha: i64,
    },
}

impl TimeWindow {
    /// Duration in milliseconds when applicable.
    pub fn duration(&self) -> (r: Option<u64>)
        ensures
            r == match *self {
                TimeWindow::Instant => Some(0u64),
                TimeWindow::Sliding { ms } => Some(ms),
                TimeWindow::Ema { .. } => None,
            },
    {
        match self {
            TimeWindow::Instant => Some(0),
            TimeWindow::Sliding { ms } => Some(*ms),
            TimeWindow::Ema { .. } => None,
        }
    }
}

/// Descriptor for a feature — its schema, unit, window, provenance.
#[derive(Debug)]
pub struct FeatureDescriptor {
    /// Feature key (dot-segmented).
    pub key: FeatureKey,
    /// Data kind + constraints.
    pub kind: FeatureKind,
    /// Optional unit string (e.g. `"ratio_0_1"`, `"dB"`, `"count"`).
    pub unit: Option<String>,
    /// Time-window semantics.
    pub window: TimeWindow,
    /// Source crate / extractor (e.g. `"perceptkit-audio@0.1.0"`).
    pub source: String,
    /// Schema version of this feature (bump on breaking change).
    pub version: u32,
}

/// Runtime feature value — one reading matching a FeatureDescriptor.
#[derive(Debug, Clone)]
pub enum FeatureValue {
    /// Continuous numeric reading (fixed-point).
    F64(i64),
    /// Boolean reading.
    Bool(bool),
    /// Categorical reading (should match `FeatureKind::Category.values`).
    Category(String),
    /// Dense vector reading (fixed-point components).
    Vector(Vec<i64>),
}

impl FeatureValue {
    /// `self` and `other` are the same reading (strings and vectors by content).
    pub open spec fn same_as(self, other: FeatureValue) -> bool {
        match (self, other) {
            (FeatureValue::F64(a), FeatureValue::F64(b)) => a == b,
            (FeatureValue::Bool(a), FeatureValue::Bool(b)) => a == b,
            (FeatureValue::Category(a), FeatureValue::Category(b)) => a@ == b@,
            (FeatureValue::Vector(a), FeatureValue::Vector(b)) => a@ == b@,
            _ => false,
        }
    }

    /// A copy of this reading.
    pub fn copy(&self) -> (r: FeatureValue)
        ensures
            r.same_as(*self),
    {
        match self {
            FeatureValue::F64(v) => FeatureValue::F64(*v),
            FeatureValue::Bool(b) => FeatureValue::Bool(*b),
            FeatureValue::Category(s) => FeatureValue::Category(s.clone()),
            FeatureValue::Vector(v) => {
                let w = v.clone();
                assert(w@ =~= v@);
                FeatureValue::Vector(w)
            },
        }
    }

    /// Type hint for error messages.
    pub fn kind_name(&self) -> (r: &'static str)
        ensures
            r@ == match *self {
                FeatureValue::F64(_) => "f64"@,
                FeatureValue::Bool(_) => "bool"@,
                FeatureValue::Category(_) => "category"@,
                FeatureValue::Vector(_) => "vector"@,
            },
    {
        match self {
            FeatureValue::F64(_) => "f64",
            FeatureValue::Bool(_) => "bool",
            FeatureValue::Category(_) => "category",
            FeatureValue::Vector(_) => "vector",
        }
    }

    /// Extract the number if this value is F64.
    pub fn as_f64(&self) -> (r: Option<i64>)
        ensures
            r == match *self {
                FeatureValue::F64(v) => Some(v),
                _ => None,
            },
    {
        match self {
            FeatureValue::F64(v) => Some(*v),
            _ => None,
        }
    }

    /// Extract bool if this value is Bool.
    pub fn as_bool(&self) -> (r: Option<bool>)
        ensures
            r == match *self {
                FeatureValue::Bool(b) => Some(b),
                _ => None,
            },
    {
        match self {
            FeatureValue::Bool(b) => Some(*b),
            _ => None,
        }
    }

    /// Extract category label if this value is Category.
    pub fn as_category(&self) -> (r: Option<&str>)
        ensures
            match *self {
                FeatureValue::Category(s) => r matches Some(t) && t@ == s@,
                _ => r is None,
            },
    {
        match self {
            FeatureValue::Category(s) => Some(s.as_str()),
            _ => None,
        }
    }
}

/// Time-stamped bundle of feature readings for one evaluation tick.
#[derive(Debug)]
pub struct FeatureBundle {
    /// The readings, keyed by feature key.
    pub features: KeyedEntries<FeatureValue>,
    /// Unix timestamp of this bundle, in microseconds.
    pub timestamp: i64,
    /// Originating sources (for provenance).
    pub sources: Vec<String>,
}

/// A read gives back the last write: once `insert` has put `v` under `k`
/// (the bundle's view went from `before` to `after`), `get` of `k` gives
/// `v`, and `get` of any other key gives what it gave before.
pub proof fn lemma_read_after_insert(
    before: Map<Seq<char>, FeatureValue>,
    after: Map<Seq<char>, FeatureValue>,
    k: Seq<char>,
    v: FeatureValue,
    other: Seq<char>,
)
    requires
        after == before.insert(k, v),
    ensures
        after.contains_key(k) && after[k] == v,
        other != k ==> after.contains_key(other) == before.contains_key(other),
        other != k && before.contains_key(other) ==> after[other] == before[other],
{
}

impl View for FeatureBundle {
    type V = Map<Seq<char>, FeatureValue>;

    closed spec fn view(&self) -> Map<Seq<char>, FeatureValue> {
        self.features.map()
    }
}

impl FeatureBundle {
    /// The readings, in insertion order.
    pub closed spec fn entries(&self) -> Seq<(FeatureKey, FeatureValue)> {
        self.features.entries()
    }

    /// Construct an empty bundle at timestamp `ts` (microseconds).
    pub fn new(timestamp: i64) -> (r: Self)
        ensures
            r@ == Map::<Seq<char>, FeatureValue>::empty(),
            r.entries().len() == 0,
            r.timestamp == timestamp,
            r.sources@.len() == 0,
    {
        FeatureBundle { features: KeyedEntries::new(), timestamp, sources: Vec::new() }
    }

    /// Insert a feature reading; returns the previous value if any.
    pub fn insert(&mut self, key: FeatureKey, value: FeatureValue) -> (r: Option<FeatureValue>)
        ensures
            final(self)@ == old(self)@.insert(key@, value),
            match r {
                Some(v) => old(self)@.contains_key(key@) && old(self)@[key@] == v,
                None => !old(self)@.contains_key(key@),
            },
            final(self).timestamp == old(self).timestamp,
            final(self).sources == old(self).sources,
            old(self)@.contains_key(key@) ==> exists|i: int|
                0 <= i < old(self).entries().len() && old(self).entries()[i].0@ == key@ && final(self).entries()
                    == old(self).entries().update(i, (key, value)),
            !old(self)@.contains_key(key@) ==> final(self).entries() == old(self).entries().push((key, value)),
    {
        let ghost k = key;
        let ghost v = value;
        let r = self.features.insert(key, value);
        proof {
            if old(self)@.contains_key(k@) {
                let i = choose|i: int|
                    0 <= i < old(self).features.entries().len() && old(self).features.entries()[i].0@ == k@
                        && self.features.entries() == old(self).features.entries().update(i, (k, v));
                assert(0 <= i < old(self).entries().len() && old(self).entries()[i].0@ == k@ && self.entries()
                    == old(self).entries().update(i, (k, v)));
            }
        }
        r
    }

    /// Read a feature by key.
    pub fn get(&self, key: &FeatureKey) -> (r: Option<&FeatureValue>)
        ensures
            match r {
                Some(v) => self@.contains_key(key@) && self@[key@] == *v,
                None => !self@.contains_key(key@),
            },
    {
        self.features.get(key)
    }

    /// Read by raw string key; `None` also when `key` is not a valid key.
    pub fn get_str(&self, key: &str) -> (r: Option<&FeatureValue>)
        ensures
            match r {
                Some(v) => is_valid_key(key@) && self@.contains_key(key@) && self@[key@] == *v,
                None => !is_valid_key(key@) || !self@.contains_key(key@),
            },
    {
        match FeatureKey::new(key) {
            Ok(k) => self.get(&k),
            Err(_) => None,
        }
    }

    /// All `(key, value)` pairs, in insertion order.
    pub fn iter(&self) -> (r: &[(FeatureKey, FeatureValue)])
        ensures
            r@ == self.entries(),
    {
        self.features.as_slice()
    }

    /// Total number of features in the bundle.
    pub fn len(&self) -> (n: usize)
        ensures
            n == self@.dom().len(),
    {
        self.features.len()
    }

    /// Whether the bundle has no features.
    pub fn is_empty(&self) -> (r: bool)
        ensures
            r == (self@.dom().len() == 0),
    {
        self.features.len() == 0
    }
}

} // verus!
