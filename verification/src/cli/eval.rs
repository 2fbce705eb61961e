//! Evaluation of the engine on a labelled dataset: per-scene counts,
//! precision / recall / F1, top-1 accuracy, macro-F1 and the release gate.
//! Ratios are fixed-point (`SCALE` = 1 000 000 is `1.0`), rounded down.

use vstd::prelude::*;

use crate::engine::{engine_evaluation, SceneEngine};
use crate::feature::FeatureBundle;
use crate::gate::ConfidenceGate;
use crate::matcher::arbiter::Arbiter;
use crate::matcher::rule::RuleMatcher;
use crate::scene::DecisionView;
use crate::text::SCALE;

verus! {

/// Per-class classification counts.
#[derive(Debug, Clone, Copy, PartialEq, Eq, Structural)]
pub struct ClassMetrics {
    /// Predicted this class, and it was the label.
    pub tp: usize,
    /// Predicted this class, but the label was another.
    pub fp: usize,
    /// Labelled this class, but another class was predicted.
    pub fn_: usize,
    /// Rows labelled this class.
    pub support: usize,
}

/// `num / den` in fixed point, rounded down; `0` when `den` is `0`.
pub open spec fn ratio(num: nat, den: nat) -> int {
    if den == 0 {
        0
    } else {
        ((num * (SCALE as nat)) / den) as int
    }
}

pub open spec fn precision_of(m: ClassMetrics) -> int {
    ratio(m.tp as nat, (m.tp + m.fp) as nat)
}

pub open spec fn recall_of(m: ClassMetrics) -> int {
    ratio(m.tp as nat, (m.tp + m.fn_) as nat)
}

/// F1, the harmonic mean of precision and recall: `2tp / (2tp + fp + fn)`.
pub open spec fn f1_of(m: ClassMetrics) -> int {
    ratio((2 * m.tp) as nat, (2 * m.tp + m.fp + m.fn_) as nat)
}

proof fn lemma_ratio_bound(num: nat, den: nat)
    requires
        num <= den,
    ensures
        0 <= ratio(num, den) <= SCALE,
{
    if den > 0 {
        assert((num * 1_000_000) / den <= 1_000_000) by (nonlinear_arith)
            requires
                num <= den,
                den > 0,
        ;
        assert((num * 1_000_000) / den >= 0) by (nonlinear_arith)
            requires
                den > 0,
        ;
    }
}

fn ratio_of(num: u128, den: u128) -> (r: i64)
    requires
        num <= den,
        den <= 2 * (usize::MAX as int) + 2 * (usize::MAX as int),
    ensures
        r == ratio(num as nat, den as nat),
{
    proof {
        lemma_ratio_bound(num as nat, den as nat);
    }
    if den == 0 {
        0
    } else {
        assert(num * 1_000_000 <= u128::MAX) by (nonlinear_arith)
            requires
                num <= 4 * (usize::MAX as int),
                usize::MAX <= u64::MAX,
        ;
        let q = (num * 1_000_000) / den;
        q as i64
    }
}

impl Default for ClassMetrics {
    fn default() -> (r: Self)
        ensures
            r == zero_metrics(),
    {
        ClassMetrics { tp: 0, fp: 0, fn_: 0, support: 0 }
    }
}

/// Counts of a class never seen.
pub open spec fn zero_metrics() -> ClassMetrics {
    ClassMetrics { tp: 0, fp: 0, fn_: 0, support: 0 }
}

impl ClassMetrics {
    /// `tp / (tp + fp)`, `0` when nothing was predicted as this class.
    pub fn precision(&self) -> (r: i64)
        ensures
            r == precision_of(*self),
    {
        ratio_of(self.tp as u128, self.tp as u128 + self.fp as u128)
    }

    /// `tp / (tp + fn)`, `0` when no row is labelled this class.
    pub fn recall(&self) -> (r: i64)
        ensures
            r == recall_of(*self),
    {
        ratio_of(self.tp as u128, self.tp as u128 + self.fn_ as u128)
    }

    /// F1 of precision and recall, `0` when both are `0`.
    pub fn f1(&self) -> (r: i64)
        ensures
            r == f1_of(*self),
    {
        let t = 2 * (self.tp as u128);
        ratio_of(t, t + self.fp as u128 + self.fn_ as u128)
    }
}


/// The counts of class `k` in parallel label / count lists (zero when `k`
/// is absent).
pub open spec fn class_of(labels: Seq<Seq<char>>, metrics: Seq<ClassMetrics>, k: Seq<char>) -> ClassMetrics {
    if exists|i: int| 0 <= i < labels.len() && labels[i] == k {
        metrics[choose|i: int| 0 <= i < labels.len() && labels[i] == k]
    } else {
        zero_metrics()
    }
}

/// What one evaluated row (label `truth`, prediction `pred`) adds to the
/// counts `c` of class `k`.
pub open spec fn after_row(c: ClassMetrics, k: Seq<char>, truth: Seq<char>, pred: Option<Seq<char>>) -> ClassMetrics {
    let hit = pred == Some(truth);
    ClassMetrics {
        tp: (c.tp + if hit && k == truth { 1int } else { 0 }) as usize,
        fp: (c.fp + if pred == Some(k) && k != truth { 1int } else { 0 }) as usize,
        fn_: (c.fn_ + if pred is Some && !hit && k == truth { 1int } else { 0 }) as usize,
        support: (c.support + if k == truth { 1int } else { 0 }) as usize,
    }
}

pub open spec fn distinct(s: Seq<Seq<char>>) -> bool {
    forall|i: int, j: int| 0 <= i < s.len() && 0 <= j < s.len() && i != j ==> s[i] != s[j]
}

proof fn lemma_class_at(labels: Seq<Seq<char>>, metrics: Seq<ClassMetrics>, i: int)
    requires
        distinct(labels),
        0 <= i < labels.len(),
    ensures
        class_of(labels, metrics, labels[i]) == metrics[i],
{
    let k = labels[i];
    assert(exists|j: int| 0 <= j < labels.len() && labels[j] == k);
    let j = choose|j: int| 0 <= j < labels.len() && labels[j] == k;
    assert(j == i);
}

/// The characters of an optional string.
pub open spec fn opt_str(o: Option<&str>) -> Option<Seq<char>> {
    match o {
        Some(s) => Some(s@),
        None => None,
    }
}

proof fn lemma_class_set(labels: Seq<Seq<char>>, metrics: Seq<ClassMetrics>, i: int, c: ClassMetrics)
    requires
        distinct(labels),
        labels.len() == metrics.len(),
        0 <= i < labels.len(),
    ensures
        forall|k: Seq<char>| #[trigger] class_of(labels, metrics.update(i, c), k) == if k == labels[i] {
            c
        } else {
            class_of(labels, metrics, k)
        },
{
    assert forall|k: Seq<char>| #[trigger] class_of(labels, metrics.update(i, c), k) == if k == labels[i] {
        c
    } else {
        class_of(labels, metrics, k)
    } by {
        if k == labels[i] {
            lemma_class_at(labels, metrics.update(i, c), i);
        } else if exists|j: int| 0 <= j < labels.len() && labels[j] == k {
            let j = choose|j: int| 0 <= j < labels.len() && labels[j] == k;
            lemma_class_at(labels, metrics.update(i, c), j);
            lemma_class_at(labels, metrics, j);
        }
    }
}

proof fn lemma_class_push(labels: Seq<Seq<char>>, metrics: Seq<ClassMetrics>, k0: Seq<char>)
    requires
        distinct(labels),
        labels.len() == metrics.len(),
        !labels.contains(k0),
    ensures
        distinct(labels.push(k0)),
        forall|k: Seq<char>| #[trigger] class_of(labels.push(k0), metrics.push(zero_metrics()), k) == class_of(labels, metrics, k),
{
    let l2 = labels.push(k0);
    let m2 = metrics.push(zero_metrics());
    assert(distinct(l2)) by {
        assert forall|i: int, j: int| 0 <= i < l2.len() && 0 <= j < l2.len() && i != j implies l2[i] != l2[j] by {
            if i == labels.len() {
                assert(!(labels[j] == k0));
            } else if j == labels.len() {
                assert(!(labels[i] == k0));
            }
        }
    }
    assert forall|k: Seq<char>| #[trigger] class_of(l2, m2, k) == class_of(labels, metrics, k) by {
        if exists|j: int| 0 <= j < l2.len() && l2[j] == k {
            let j = choose|j: int| 0 <= j < l2.len() && l2[j] == k;
            lemma_class_at(l2, m2, j);
            if j < labels.len() {
                lemma_class_at(labels, metrics, j);
                assert(m2[j] == metrics[j]);
            } else {
                assert(k == k0);
                assert(!(exists|i: int| 0 <= i < labels.len() && labels[i] == k)) by {
                    if exists|i: int| 0 <= i < labels.len() && labels[i] == k {
                        let i = choose|i: int| 0 <= i < labels.len() && labels[i] == k;
                        assert(labels.contains(k0));
                    }
                }
            }
        } else {
            assert(!(exists|i: int| 0 <= i < labels.len() && labels[i] == k)) by {
                if exists|i: int| 0 <= i < labels.len() && labels[i] == k {
                    let i = choose|i: int| 0 <= i < labels.len() && labels[i] == k;
                    assert(l2[i] == k);
                }
            }
        }
    }
}

proof fn lemma_push_contains(l: Seq<Seq<char>>, x: Seq<char>, k: Seq<char>)
    ensures
        l.push(x).contains(k) <==> (l.contains(k) || k == x),
{
    if l.push(x).contains(k) {
        let i = choose|i: int| 0 <= i < l.push(x).len() && l.push(x)[i] == k;
        if i < l.len() {
            assert(l[i] == k);
        }
    }
    if l.contains(k) {
        let i = choose|i: int| 0 <= i < l.len() && l[i] == k;
        assert(l.push(x)[i] == k);
    }
    if k == x {
        assert(l.push(x)[l.len() as int] == k);
    }
}

/// Total support of a list of class counts.
pub open spec fn support_sum(ms: Seq<ClassMetrics>) -> int
    decreases ms.len(),
{
    if ms.len() == 0 {
        0
    } else {
        support_sum(ms.drop_last()) + ms.last().support
    }
}

proof fn lemma_support_sum_update(ms: Seq<ClassMetrics>, i: int, c: ClassMetrics)
    requires
        0 <= i < ms.len(),
    ensures
        support_sum(ms.update(i, c)) == support_sum(ms) - ms[i].support + c.support,
    decreases ms.len(),
{
    let u = ms.update(i, c);
    if i == ms.len() - 1 {
        assert(u.drop_last() =~= ms.drop_last());
    } else {
        lemma_support_sum_update(ms.drop_last(), i, c);
        assert(u.drop_last() =~= ms.drop_last().update(i, c));
    }
}

proof fn lemma_support_sum_push_zero(ms: Seq<ClassMetrics>)
    ensures
        support_sum(ms.push(zero_metrics())) == support_sum(ms),
{
    assert(ms.push(zero_metrics()).drop_last() =~= ms);
}

/// Every count in `metrics` is at most `n`.
pub open spec fn bounded(metrics: Seq<ClassMetrics>, n: nat) -> bool {
    forall|i: int| 0 <= i < metrics.len() ==> {
        let m = #[trigger] metrics[i];
        m.tp <= n && m.fp <= n && m.fn_ <= n && m.support <= n
    }
}

/// Running tally of an evaluation.
#[derive(Debug)]
pub struct EvalTally {
    labels: Vec<String>,
    metrics: Vec<ClassMetrics>,
    total: usize,
    correct: usize,
    unknown: usize,
}

/// The views of a list of strings.
pub open spec fn views(s: Seq<String>) -> Seq<Seq<char>> {
    s.map_values(|x: String| x@)
}

impl EvalTally {
    #[verifier::type_invariant]
    spec fn inv(self) -> bool {
        &&& self.labels@.len() == self.metrics@.len()
        &&& distinct(views(self.labels@))
        &&& self.correct + self.unknown <= self.total
        &&& bounded(self.metrics@, self.total as nat)
        &&& support_sum(self.metrics@) == self.total
    }

    /// The tally's own consistency: one count entry per distinct label, and
    /// counts that add up to the rows tallied.
    pub closed spec fn well_formed(self) -> bool {
        self.inv()
    }

    /// The classes seen, in order of first appearance.
    pub closed spec fn labels(self) -> Seq<Seq<char>> {
        views(self.labels@)
    }

    /// The counts of each class, in the order of `labels`.
    pub closed spec fn metrics(self) -> Seq<ClassMetrics> {
        self.metrics@
    }

    /// The counts of class `k`.
    pub open spec fn class(self, k: Seq<char>) -> ClassMetrics {
        class_of(self.labels(), self.metrics(), k)
    }

    /// Rows tallied.
    pub closed spec fn total(self) -> nat {
        self.total as nat
    }

    /// Rows whose prediction was their label.
    pub closed spec fn correct(self) -> nat {
        self.correct as nat
    }

    /// Rows with no prediction.
    pub closed spec fn unknown(self) -> nat {
        self.unknown as nat
    }

    /// An empty tally.
    pub fn new() -> (r: Self)
        ensures
            r.labels() == Seq::<Seq<char>>::empty(),
            r.metrics() == Seq::<ClassMetrics>::empty(),
            forall|k: Seq<char>| #[trigger] r.class(k) == zero_metrics(),
            r.total() == 0 && r.correct() == 0 && r.unknown() == 0,
    {
        let r = EvalTally { labels: Vec::new(), metrics: Vec::new(), total: 0, correct: 0, unknown: 0 };
        assert(views(r.labels@) =~= Seq::<Seq<char>>::empty());
        r
    }

    /// Record one evaluated row: its label `truth` and the engine's
    /// prediction `pred` (`None` when the engine answered unknown).
    pub fn record(&mut self, truth: &str, pred: Option<&str>)
        requires
            old(self).total() < usize::MAX,
        ensures
            final(self).total() == old(self).total() + 1,
            final(self).unknown() == old(self).unknown() + if pred is None { 1int } else { 0 },
            final(self).correct() == old(self).correct() + if opt_str(pred) == Some(truth@) { 1int } else { 0 },
            forall|k: Seq<char>| #[trigger] final(self).class(k) == after_row(old(self).class(k), k, truth@, opt_str(pred)),
            forall|k: Seq<char>| #[trigger] final(self).labels().contains(k) <==> (old(self).labels().contains(k)
                || k == truth@ || opt_str(pred) == Some(k)),
    {
        proof {
            use_type_invariant(&*self);
        }
        let mut tmp = EvalTally::new();
        std::mem::swap(&mut tmp, self);
        proof {
            use_type_invariant(&tmp);
        }
        let EvalTally { mut labels, mut metrics, total, correct, unknown } = tmp;
        let ghost l0 = views(labels@);
        let ghost m0 = metrics@;
        let ghost pv = opt_str(pred);
        let total = total + 1;
        let mut correct = correct;
        let mut unknown = unknown;
        let t = slot(&mut labels, &mut metrics, truth);
        proof {
            if !l0.contains(truth@) {
                lemma_class_push(l0, m0, truth@);
                lemma_support_sum_push_zero(m0);
            }
            assert(forall|k: Seq<char>| #[trigger] class_of(views(labels@), metrics@, k) == class_of(l0, m0, k));
            assert(views(labels@)[t as int] == truth@);
            assert(bounded(metrics@, (total - 1) as nat));
        }
        let ghost l1 = views(labels@);
        let ghost m1 = metrics@;
        let m = metrics[t];
        let c1 = ClassMetrics { support: m.support + 1, ..m };
        metrics.set(t, c1);
        proof {
            lemma_class_set(l1, m1, t as int, c1);
            lemma_class_at(l1, m1, t as int);
            lemma_support_sum_update(m1, t as int, c1);
        }
        let ghost m2 = metrics@;
        match pred {
            None => {
                unknown = unknown + 1;
                proof {
                    assert forall|k: Seq<char>| #[trigger] class_of(views(labels@), metrics@, k) == after_row(class_of(l0, m0, k), k, truth@, pv) by {}
                }
            },
            Some(p) => {
                if crate::text::str_eq(p, truth) {
                    correct = correct + 1;
                    let m = metrics[t];
                    let c2 = ClassMetrics { tp: m.tp + 1, ..m };
                    metrics.set(t, c2);
                    proof {
                        lemma_support_sum_update(m2, t as int, c2);
                        lemma_class_set(l1, m2, t as int, c2);
                        assert forall|k: Seq<char>| #[trigger] class_of(views(labels@), metrics@, k) == after_row(class_of(l0, m0, k), k, truth@, pv) by {}
                    }
                } else {
                    let q = slot(&mut labels, &mut metrics, p);
                    let ghost l3 = views(labels@);
                    let ghost m3 = metrics@;
                    proof {
                        if !l1.contains(p@) {
                            lemma_class_push(l1, m2, p@);
                            lemma_support_sum_push_zero(m2);
                        }
                        assert(forall|k: Seq<char>| #[trigger] class_of(l3, m3, k) == class_of(l1, m2, k));
                        assert(l3[t as int] == truth@);
                        assert(l3[q as int] == p@);
                        assert(q != t);
                    }
                    let m = metrics[q];
                    let c3 = ClassMetrics { fp: m.fp + 1, ..m };
                    metrics.set(q, c3);
                    proof {
                        lemma_class_set(l3, m3, q as int, c3);
                        lemma_class_at(l3, m3, q as int);
                        lemma_support_sum_update(m3, q as int, c3);
                    }
                    let ghost m4 = metrics@;
                    let m = metrics[t];
                    let c4 = ClassMetrics { fn_: m.fn_ + 1, ..m };
                    metrics.set(t, c4);
                    proof {
                        lemma_support_sum_update(m4, t as int, c4);
                        lemma_class_set(l3, m4, t as int, c4);
                        lemma_class_at(l3, m4, t as int);
                        lemma_class_at(l3, m3, t as int);
                        assert forall|k: Seq<char>| #[trigger] class_of(views(labels@), metrics@, k) == after_row(class_of(l0, m0, k), k, truth@, pv) by {}
                    }
                }
            },
        }
        proof {
            assert forall|k: Seq<char>| #[trigger] views(labels@).contains(k) <==> (l0.contains(k) || k == truth@
                || pv == Some(k)) by {
                lemma_push_contains(l0, truth@, k);
                if pred is Some && pv != Some(truth@) {
                    lemma_push_contains(l1, pv->0, k);
                }
            }
        }
        *self = EvalTally { labels, metrics, total, correct, unknown };
    }
}

/// Index of class `label` in parallel label / count lists, added with zero
/// counts when it is new.
fn slot(labels: &mut Vec<String>, metrics: &mut Vec<ClassMetrics>, label: &str) -> (i: usize)
    requires
        old(labels)@.len() == old(metrics)@.len(),
        distinct(views(old(labels)@)),
    ensures
        final(labels)@.len() == final(metrics)@.len(),
        distinct(views(final(labels)@)),
        i < final(labels)@.len(),
        final(labels)@[i as int]@ == label@,
        views(old(labels)@).contains(label@) ==> views(final(labels)@) == views(old(labels)@)
            && final(metrics)@ == old(metrics)@,
        !views(old(labels)@).contains(label@) ==> views(final(labels)@) == views(old(labels)@).push(label@)
            && final(metrics)@ == old(metrics)@.push(zero_metrics()),
{
    let ghost ls = views(labels@);
    let mut i: usize = 0;
    while i < labels.len()
        invariant
            ls == views(labels@),
            labels@ == old(labels)@,
            metrics@ == old(metrics)@,
            labels@.len() == metrics@.len(),
            distinct(ls),
            i <= labels@.len(),
            forall|j: int| 0 <= j < i ==> ls[j] != label@,
        decreases labels@.len() - i,
    {
        if crate::text::str_eq(labels[i].as_str(), label) {
            assert(ls[i as int] == label@);
            assert(ls.contains(label@));
            return i;
        }
        i = i + 1;
    }
    let n = labels.len();
    labels.push(label.to_owned());
    metrics.push(ClassMetrics { tp: 0, fp: 0, fn_: 0, support: 0 });
    proof {
        assert(views(labels@) =~= ls.push(label@));
    }
    n
}


/// Sum of the F1 of the classes with a labelled row.
pub open spec fn labeled_f1_sum(ms: Seq<ClassMetrics>) -> int
    decreases ms.len(),
{
    if ms.len() == 0 {
        0
    } else {
        labeled_f1_sum(ms.drop_last()) + if ms.last().support > 0 { f1_of(ms.last()) } else { 0 }
    }
}

/// Number of classes with a labelled row.
pub open spec fn labeled_count(ms: Seq<ClassMetrics>) -> nat
    decreases ms.len(),
{
    if ms.len() == 0 {
        0
    } else {
        labeled_count(ms.drop_last()) + if ms.last().support > 0 { 1nat } else { 0 }
    }
}

/// Macro-F1: the mean F1 over the classes with a labelled row (rounded
/// down), `0` when there is none.
pub open spec fn macro_f1_of(ms: Seq<ClassMetrics>) -> int {
    if labeled_count(ms) == 0 {
        0
    } else {
        labeled_f1_sum(ms) / (labeled_count(ms) as int)
    }
}

/// Aggregate evaluation result.
#[derive(Debug)]
pub struct EvalReport {
    /// Rows evaluated.
    pub n: usize,
    /// Fraction of rows whose prediction was their label (fixed point).
    pub top1_accuracy: i64,
    /// Mean F1 over labelled classes (fixed point).
    pub macro_f1: i64,
    /// Counts per class, in order of first appearance.
    pub per_class: Vec<(String, ClassMetrics)>,
    /// Rows the engine answered unknown.
    pub unknown_count: usize,
}

/// Minimum top-1 accuracy of the release gate (0.78).
pub const TOP1_MIN: i64 = 780_000;
/// Minimum macro-F1 of the release gate (0.72).
pub const MACRO_F1_MIN: i64 = 720_000;
/// Minimum recall of each labelled scene in the release gate (0.70).
pub const PER_SCENE_MIN: i64 = 700_000;

/// `r` is the report of tally `t`: its counts, its ratios, and one entry
/// per class in the order of the tally's labels.
pub open spec fn report_of(t: EvalTally, r: EvalReport) -> bool {
    &&& r.n == t.total()
    &&& r.unknown_count == t.unknown()
    &&& r.top1_accuracy == ratio(t.correct(), t.total())
    &&& r.macro_f1 == macro_f1_of(t.metrics())
    &&& support_sum(r.per_class@.map_values(|e: (String, ClassMetrics)| e.1)) == r.n
    &&& r.per_class@.len() == t.labels().len()
    &&& forall|i: int| 0 <= i < r.per_class@.len() ==> (#[trigger] r.per_class@[i]).0@ == t.labels()[i]
        && r.per_class@[i].1 == t.metrics()[i]
}

impl EvalTally {
    /// The aggregate report of the rows tallied so far.
    pub fn report(&self) -> (r: EvalReport)
        ensures
            report_of(*self, r),
    {
        proof {
            use_type_invariant(self);
        }
        let top1 = ratio_of(self.correct as u128, self.total as u128);
        let mut per_class: Vec<(String, ClassMetrics)> = Vec::new();
        let mut sum: u128 = 0;
        let mut count: u128 = 0;
        let mut i: usize = 0;
        while i < self.labels.len()
            invariant
                i <= self.labels@.len(),
                self.labels@.len() == self.metrics@.len(),
                per_class@.len() == i,
                forall|j: int| 0 <= j < i ==> (#[trigger] per_class@[j]).0@ == self.labels@[j]@
                    && per_class@[j].1 == self.metrics@[j],
                sum == labeled_f1_sum(self.metrics@.take(i as int)),
                count == labeled_count(self.metrics@.take(i as int)),
                sum <= count * 1_000_000,
                count <= i,
            decreases self.labels@.len() - i,
        {
            let m = self.metrics[i];
            proof {
                assert(self.metrics@.take(i + 1).drop_last() =~= self.metrics@.take(i as int));
                lemma_ratio_bound((2 * m.tp) as nat, (2 * m.tp + m.fp + m.fn_) as nat);
            }
            if m.support > 0 {
                let f = m.f1();
                sum = sum + f as u128;
                count = count + 1;
            }
            per_class.push((self.labels[i].clone(), m));
            i = i + 1;
        }
        proof {
            assert(self.metrics@.take(i as int) =~= self.metrics@);
            assert(per_class@.map_values(|e: (String, ClassMetrics)| e.1) =~= self.metrics@);
        }
        let macro_f1: i64 = if count == 0 {
            0
        } else {
            assert(sum / count <= 1_000_000) by (nonlinear_arith)
                requires
                    sum <= count * 1_000_000,
                    count >= 1,
            ;
            (sum / count) as i64
        };
        EvalReport { n: self.total, top1_accuracy: top1, macro_f1, per_class, unknown_count: self.unknown }
    }
}

impl EvalReport {
    /// Whether the report meets the release gate: top-1 at least 0.78,
    /// macro-F1 at least 0.72, and every labelled scene's recall at least 0.70.
    pub fn passes_v01_gate(&self) -> (r: bool)
        ensures
            r == (self.top1_accuracy >= TOP1_MIN && self.macro_f1 >= MACRO_F1_MIN && forall|i: int|
                0 <= i < self.per_class@.len() ==> (#[trigger] self.per_class@[i]).1.support == 0
                    || recall_of(self.per_class@[i].1) >= PER_SCENE_MIN),
    {
        if self.top1_accuracy < TOP1_MIN || self.macro_f1 < MACRO_F1_MIN {
            return false;
        }
        let mut i: usize = 0;
        while i < self.per_class.len()
            invariant
                i <= self.per_class@.len(),
                forall|j: int| 0 <= j < i ==> (#[trigger] self.per_class@[j]).1.support == 0
                    || recall_of(self.per_class@[j].1) >= PER_SCENE_MIN,
            decreases self.per_class@.len() - i,
        {
            let m = self.per_class[i].1;
            if m.support > 0 && m.recall() < PER_SCENE_MIN {
                return false;
            }
            i = i + 1;
        }
        true
    }
}

/// The counts of class `k` after the outcomes `outs` (label, prediction).
pub open spec fn class_after(outs: Seq<(Seq<char>, Option<Seq<char>>)>, k: Seq<char>) -> ClassMetrics
    decreases outs.len(),
{
    if outs.len() == 0 {
        zero_metrics()
    } else {
        after_row(class_after(outs.drop_last(), k), k, outs.last().0, outs.last().1)
    }
}

/// Outcomes whose prediction is their label.
pub open spec fn correct_count(outs: Seq<(Seq<char>, Option<Seq<char>>)>) -> nat
    decreases outs.len(),
{
    if outs.len() == 0 {
        0
    } else {
        correct_count(outs.drop_last()) + if outs.last().1 == Some(outs.last().0) { 1nat } else { 0 }
    }
}

/// Outcomes with no prediction.
pub open spec fn unknown_count(outs: Seq<(Seq<char>, Option<Seq<char>>)>) -> nat
    decreases outs.len(),
{
    if outs.len() == 0 {
        0
    } else {
        unknown_count(outs.drop_last()) + if outs.last().1 is None { 1nat } else { 0 }
    }
}

/// Outcome `o` (label, prediction) names class `k`.
pub open spec fn names(o: (Seq<char>, Option<Seq<char>>), k: Seq<char>) -> bool {
    o.0 == k || o.1 == Some(k)
}

/// `t` is the tally of the outcomes `outs`, taken in order.
pub open spec fn tally_of(t: EvalTally, outs: Seq<(Seq<char>, Option<Seq<char>>)>) -> bool {
    &&& t.total() == outs.len()
    &&& t.correct() == correct_count(outs)
    &&& t.unknown() == unknown_count(outs)
    &&& forall|k: Seq<char>| #[trigger] t.class(k) == class_after(outs, k)
    &&& forall|k: Seq<char>| #[trigger] t.labels().contains(k) <==> exists|i: int|
        0 <= i < outs.len() && #[trigger] names(outs[i], k)
}

/// The outcome of each row: its label and the scene of its decision.
pub open spec fn outcomes(rows: Seq<(String, FeatureBundle)>, ds: Seq<DecisionView>) -> Seq<(Seq<char>, Option<Seq<char>>)> {
    Seq::new(rows.len(), |i: int| (rows[i].0@, ds[i].scene_id))
}

/// `ds` are the engine's decisions on the bundles of `rows`, one per row.
pub open spec fn engine_decisions<M: RuleMatcher, A: Arbiter, G: ConfidenceGate>(
    engine: SceneEngine<M, A, G>,
    rows: Seq<(String, FeatureBundle)>,
    ds: Seq<DecisionView>,
) -> bool {
    &&& ds.len() == rows.len()
    &&& forall|i: int| 0 <= i < rows.len() ==> engine_evaluation(
        engine.matcher_spec(),
        engine.arbiter_spec(),
        engine.gate_spec(),
        engine.context(rows[i].1),
        #[trigger] ds[i],
    )
}

/// Evaluate every labelled row with the engine and tally the predictions
/// against the labels, in row order.
pub fn tally_rows<M: RuleMatcher, A: Arbiter, G: ConfidenceGate>(
    engine: &SceneEngine<M, A, G>,
    rows: &[(String, FeatureBundle)],
) -> (r: EvalTally)
    requires
        rows@.len() < usize::MAX,
    ensures
        exists|ds: Seq<DecisionView>| engine_decisions(*engine, rows@, ds) && tally_of(r, outcomes(rows@, ds)),
{
    let mut tally = EvalTally::new();
    let ghost mut ds: Seq<DecisionView> = Seq::empty();
    let ghost mut outs: Seq<(Seq<char>, Option<Seq<char>>)> = Seq::empty();
    proof {
        assert forall|k: Seq<char>| #[trigger] tally.labels().contains(k) <==> exists|i: int|
            0 <= i < outs.len() && #[trigger] names(outs[i], k) by {}
    }
    let mut i: usize = 0;
    while i < rows.len()
        invariant
            i <= rows@.len(),
            rows@.len() < usize::MAX,
            ds.len() == i,
            outs.len() == i,
            forall|j: int| 0 <= j < i ==> engine_evaluation(
                engine.matcher_spec(),
                engine.arbiter_spec(),
                engine.gate_spec(),
                engine.context(rows@[j].1),
                #[trigger] ds[j],
            ),
            forall|j: int| 0 <= j < i ==> #[trigger] outs[j] == (rows@[j].0@, ds[j].scene_id),
            tally_of(tally, outs),
        decreases rows@.len() - i,
    {
        let d = engine.evaluate(&rows[i].1);
        let pred: Option<&str> = match &d.scene_id {
            Some(s) => Some(s.as_str()),
            None => None,
        };
        let ghost old_tally = tally;
        tally.record(rows[i].0.as_str(), pred);
        proof {
            let o = (rows@[i as int].0@, d@.scene_id);
            assert(opt_str(pred) == d@.scene_id);
            let outs2 = outs.push(o);
            assert(outs2.drop_last() =~= outs);
            assert forall|k: Seq<char>| #[trigger] tally.labels().contains(k) <==> exists|j: int|
                0 <= j < outs2.len() && #[trigger] names(outs2[j], k) by {
                if old_tally.labels().contains(k) {
                    let j = choose|j: int| 0 <= j < outs.len() && #[trigger] names(outs[j], k);
                    assert(outs2[j] == outs[j]);
                    assert(names(outs2[j], k));
                }
                if k == o.0 || o.1 == Some(k) {
                    assert(outs2[i as int] == o);
                    assert(names(outs2[i as int], k));
                }
                if exists|j: int| 0 <= j < outs2.len() && #[trigger] names(outs2[j], k) {
                    let j = choose|j: int| 0 <= j < outs2.len() && #[trigger] names(outs2[j], k);
                    if j < i {
                        assert(outs2[j] == outs[j]);
                        assert(names(outs[j], k));
                    }
                }
            }
            ds = ds.push(d@);
            outs = outs2;
        }
        i = i + 1;
    }
    proof {
        assert(outs =~= outcomes(rows@, ds));
        assert(engine_decisions(*engine, rows@, ds));
        assert(tally_of(tally, outcomes(rows@, ds)));
    }
    tally
}

/// Evaluate every labelled row with the engine and report top-1 accuracy,
/// macro-F1 and the per-scene counts.
pub fn evaluate_rows<M: RuleMatcher, A: Arbiter, G: ConfidenceGate>(
    engine: &SceneEngine<M, A, G>,
    rows: &[(String, FeatureBundle)],
) -> (r: EvalReport)
    requires
        rows@.len() < usize::MAX,
    ensures
        exists|t: EvalTally, ds: Seq<DecisionView>| t.well_formed() && engine_decisions(*engine, rows@, ds) && tally_of(
            t,
            outcomes(rows@, ds),
        ) && report_of(t, r),
{
    let t = tally_rows(engine, rows);
    proof {
        use_type_invariant(&t);
    }
    let r = t.report();
    r
}

} // verus!
