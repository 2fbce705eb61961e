//! SceneEngine — orchestrates matcher, arbiter and gate over loaded scenes.

use vstd::prelude::*;

use crate::dsl::schema::Condition;
use crate::feature::FeatureBundle;
use crate::gate::{verdict_spec, ConfidenceGate, GateVerdict, ThresholdGate, VerdictView};
use crate::matcher::arbiter::{arbitrated, decision_for, is_winner, Arbiter, CtxView, EvalCtx, PriorityArbiter};
use crate::matcher::rule::{match_view, matches_of, match_views, scene_matches, RuleMatcher, SimpleRuleMatcher};
use crate::reflector::{PendingCase, ReflectError, Reflection};
use crate::registry::FeatureRegistry;
use crate::scene::{
    evidence_views, unknown_view, DecisionSource, DecisionView, Evidence, EvidenceKind, Scene,
    SceneDecision,
};
use crate::text::{decimal, int_text, push_decimal, push_int, push_str, str_eq};

verus! {

/// Lint report from `lint_scenes`.
#[derive(Debug)]
pub struct LintReport {
    /// Scenes loaded successfully.
    pub scenes_ok: usize,
    /// Detected scene-id collisions or overlaps.
    pub conflicts: Vec<LintConflict>,
    /// Informational warnings.
    pub warnings: Vec<String>,
}

impl LintReport {
    /// Whether the lint passed (no conflicts).
    pub fn passed(&self) -> (r: bool)
        ensures
            r == (self.conflicts@.len() == 0),
    {
        self.conflicts.len() == 0
    }
}

/// A detected conflict between two scenes.
#[derive(Debug)]
pub struct LintConflict {
    /// First scene id.
    pub scene_a: String,
    /// Second scene id.
    pub scene_b: String,
    /// Human-readable explanation.
    pub reason: String,
}

/// Text of the escalation note of the synchronous path.
pub open spec fn escalation_note(reason: Seq<char>) -> Seq<char> {
    "gate escalated (reason: "@ + reason + ") — sync evaluate() skipped Cold Path"@
}

/// What a verdict `v` makes of the hot-path decision `h` on the synchronous path.
pub open spec fn gated_by(v: VerdictView, h: DecisionView) -> DecisionView {
    match v {
        VerdictView::Accept => h,
        VerdictView::Reject => unknown_view(),
        VerdictView::Escalate(reason) => DecisionView {
            source: DecisionSource::Fallback,
            rationale: h.rationale.push((EvidenceKind::Reflection, escalation_note(reason))),
            ..h
        },
    }
}

/// What the threshold gate `g` makes of the hot-path decision `h`.
pub open spec fn gated(g: ThresholdGate, h: DecisionView) -> DecisionView {
    gated_by(verdict_spec(g, h), h)
}

/// `d` is the synchronous evaluation by matcher `m`, arbiter `a` and gate
/// `g` in context `c`: the arbiter decides among the matcher's candidates,
/// and the confidence gate, judging that decision, settles the result.
pub open spec fn engine_evaluation<M: RuleMatcher, A: Arbiter, G: ConfidenceGate>(
    m: M,
    a: A,
    g: G,
    c: CtxView,
    d: DecisionView,
) -> bool {
    exists|h: DecisionView|
        a.decides(c, m.matches_spec(c.bundle, c.scenes), h) && d == gated_by(g.verdict_of(h, c), h)
}

/// `d` is the synchronous evaluation of bundle `b` over `scenes` with gate `g`.
pub open spec fn evaluation(scenes: Seq<Scene>, b: Map<Seq<char>, crate::feature::FeatureValue>, g: ThresholdGate, d: DecisionView) -> bool {
    exists|h: DecisionView| arbitrated(scenes, matches_of(scenes, b), h) && d == gated(g, h)
}

/// The decision a reflection yields, given the escalated hot-path decision.
pub open spec fn reflection_decision(r: Reflection, fallback: DecisionView) -> DecisionView {
    match r {
        Reflection::MapsTo { scene_id, rationale } => DecisionView {
            scene_id: Some(scene_id@),
            confidence: if fallback.confidence >= 600_000 { fallback.confidence } else { 600_000 },
            description: None,
            source: DecisionSource::Reflection,
            rationale: seq![(EvidenceKind::Reflection, rationale@)],
        },
        Reflection::Propose { .. } => DecisionView {
            rationale: seq![(EvidenceKind::Reflection, "reflector proposed new scene (queued for review)"@)],
            ..unknown_view()
        },
        Reflection::Unknown { summary, .. } => DecisionView {
            rationale: seq![(EvidenceKind::Reflection, summary@)],
            ..unknown_view()
        },
    }
}

fn unknown_with_note(kind: EvidenceKind, note: String) -> (d: SceneDecision)
    ensures
        d@ == (DecisionView { rationale: seq![(kind, note@)], ..unknown_view() }),
{
    let mut d = SceneDecision::unknown();
    d.rationale.push(Evidence { kind, description: note });
    assert(evidence_views(d.rationale@) =~= seq![(kind, note@)]);
    d
}

/// Turn a reflection into a decision. A mapping keeps at least 0.60
/// confidence; a proposal or an honest unknown gives `Unknown` with a note.
pub fn reflection_to_decision(reflection: Reflection, fallback: SceneDecision) -> (d: SceneDecision)
    ensures
        d@ == reflection_decision(reflection, fallback@),
{
    match reflection {
        Reflection::MapsTo { scene_id, rationale } => {
            let mut ev: Vec<Evidence> = Vec::new();
            ev.push(Evidence { kind: EvidenceKind::Reflection, description: rationale });
            let d = SceneDecision {
                scene_id: Some(scene_id),
                confidence: if fallback.confidence >= 600_000 { fallback.confidence } else { 600_000 },
                description: None,
                source: DecisionSource::Reflection,
                rationale: ev,
            };
            assert(evidence_views(d.rationale@) =~= seq![(EvidenceKind::Reflection, d.rationale@[0].description@)]);
            d
        },
        Reflection::Propose { .. } => unknown_with_note(
            EvidenceKind::Reflection,
            "reflector proposed new scene (queued for review)".to_owned(),
        ),
        Reflection::Unknown { summary, .. } => unknown_with_note(EvidenceKind::Reflection, summary),
    }
}

/// The decision after the cold path answered: the reflection's decision, or
/// an honest `Unknown` when the reflector failed.
pub fn settle_reflection(outcome: Result<Reflection, ReflectError>, fallback: SceneDecision) -> (d: SceneDecision)
    ensures
        match outcome {
            Ok(r) => d@ == reflection_decision(r, fallback@),
            Err(_) => d@ == unknown_view(),
        },
{
    match outcome {
        Ok(r) => reflection_to_decision(r, fallback),
        Err(_) => SceneDecision::unknown(),
    }
}

/// Two scenes conflict when they share a priority and some `all` feature key.
pub open spec fn conflicting(a: Scene, b: Scene) -> bool {
    a.priority == b.priority && exists|x: int, y: int|
        0 <= x < a.match_rules.all@.len() && 0 <= y < b.match_rules.all@.len()
            && (#[trigger] a.match_rules.all@[x]).feature@ == (#[trigger] b.match_rules.all@[y]).feature@
}

/// Conflicting pairs `(i, j)`, `i < j < end`.
pub open spec fn conflict_row(scenes: Seq<Scene>, i: int, end: int) -> Seq<(int, int)>
    decreases end - i,
{
    if end <= i + 1 {
        Seq::empty()
    } else {
        let rest = conflict_row(scenes, i, end - 1);
        if conflicting(scenes[i], scenes[end - 1]) {
            rest.push((i, end - 1))
        } else {
            rest
        }
    }
}

/// All conflicting pairs `(i, j)` with `i < rows`, `i < j`, in order.
pub open spec fn conflict_pairs(scenes: Seq<Scene>, rows: int) -> Seq<(int, int)>
    decreases rows,
{
    if rows <= 0 {
        Seq::empty()
    } else {
        conflict_pairs(scenes, rows - 1) + conflict_row(scenes, rows - 1, scenes.len() as int)
    }
}

/// Reason text of a conflict at priority `p`.
pub open spec fn conflict_reason(p: int) -> Seq<char> {
    "same priority "@ + int_text(p) + " and overlapping `all` feature keys"@
}

/// `c` reports the conflicting pair `(i, j)`.
pub open spec fn reports(scenes: Seq<Scene>, c: LintConflict, p: (int, int)) -> bool {
    c.scene_a@ == scenes[p.0].id@ && c.scene_b@ == scenes[p.1].id@ && c.reason@ == conflict_reason(
        scenes[p.0].priority as int,
    )
}

fn shares_all_key(a: &Scene, b: &Scene) -> (r: bool)
    ensures
        r == exists|x: int, y: int|
            0 <= x < a.match_rules.all@.len() && 0 <= y < b.match_rules.all@.len()
                && (#[trigger] a.match_rules.all@[x]).feature@ == (#[trigger] b.match_rules.all@[y]).feature@,
{
    let mut x: usize = 0;
    while x < a.match_rules.all.len()
        invariant
            x <= a.match_rules.all@.len(),
            forall|i: int, j: int| 0 <= i < x && 0 <= j < b.match_rules.all@.len() ==> (#[trigger] a.match_rules.all@[i]).feature@ != (
            #[trigger] b.match_rules.all@[j]).feature@,
        decreases a.match_rules.all@.len() - x,
    {
        let mut y: usize = 0;
        while y < b.match_rules.all.len()
            invariant
                x < a.match_rules.all@.len(),
                y <= b.match_rules.all@.len(),
                forall|i: int, j: int| 0 <= i < x && 0 <= j < b.match_rules.all@.len() ==> (#[trigger] a.match_rules.all@[i]).feature@ != (
                #[trigger] b.match_rules.all@[j]).feature@,
                forall|j: int| 0 <= j < y ==> a.match_rules.all@[x as int].feature@ != (#[trigger] b.match_rules.all@[j]).feature@,
            decreases b.match_rules.all@.len() - y,
        {
            if str_eq(a.match_rules.all[x].feature.as_str(), b.match_rules.all[y].feature.as_str()) {
                assert(a.match_rules.all@[x as int].feature@ == b.match_rules.all@[y as int].feature@);
                return true;
            }
            y = y + 1;
        }
        x = x + 1;
    }
    false
}

/// Lint a scene list: every pair of scenes (in list order) with the same
/// priority and an overlapping `all` feature key is a conflict.
pub fn lint_scenes(scenes: &[Scene]) -> (r: LintReport)
    ensures
        r.scenes_ok == scenes@.len(),
        r.warnings@.len() == 0,
        r.conflicts@.len() == conflict_pairs(scenes@, scenes@.len() as int).len(),
        forall|k: int| 0 <= k < r.conflicts@.len() ==> reports(
            scenes@,
            #[trigger] r.conflicts@[k],
            conflict_pairs(scenes@, scenes@.len() as int)[k],
        ),
{
    let n = scenes.len();
    let ghost s = scenes@;
    let mut conflicts: Vec<LintConflict> = Vec::new();
    let mut i: usize = 0;
    while i < n
        invariant
            s == scenes@,
            n == s.len(),
            i <= n,
            conflicts@.len() == conflict_pairs(s, i as int).len(),
            forall|k: int| 0 <= k < conflicts@.len() ==> reports(s, #[trigger] conflicts@[k], conflict_pairs(s, i as int)[k]),
        decreases n - i,
    {
        let ghost before = conflict_pairs(s, i as int);
        let mut j: usize = i + 1;
        assert(conflict_row(s, i as int, j as int) =~= Seq::<(int, int)>::empty());
        while j < n
            invariant
                s == scenes@,
                n == s.len(),
                i < n,
                i + 1 <= j <= n,
                before == conflict_pairs(s, i as int),
                conflicts@.len() == before.len() + conflict_row(s, i as int, j as int).len(),
                forall|k: int| 0 <= k < conflicts@.len() ==> reports(
                    s,
                    #[trigger] conflicts@[k],
                    (before + conflict_row(s, i as int, j as int))[k],
                ),
            decreases n - j,
        {
            let a = &scenes[i];
            let b = &scenes[j];
            let ghost prev = conflicts@;
            if a.priority == b.priority && shares_all_key(a, b) {
                let mut reason = String::new();
                push_str(&mut reason, "same priority ");
                push_int(&mut reason, a.priority as i64);
                push_str(&mut reason, " and overlapping `all` feature keys");
                conflicts.push(LintConflict { scene_a: a.id.clone(), scene_b: b.id.clone(), reason });
                assert(before + conflict_row(s, i as int, j + 1) =~= (before + conflict_row(s, i as int, j as int)).push((i as int, j as int)));
            } else {
                assert(before + conflict_row(s, i as int, j + 1) =~= before + conflict_row(s, i as int, j as int));
            }
            j = j + 1;
        }
        assert(conflict_pairs(s, i + 1) =~= before + conflict_row(s, i as int, n as int));
        i = i + 1;
    }
    LintReport { scenes_ok: n, conflicts, warnings: Vec::new() }
}

proof fn lemma_conflict_row_empty(scenes: Seq<Scene>, i: int, end: int)
    requires
        0 <= i,
        end <= scenes.len(),
    ensures
        conflict_row(scenes, i, end).len() == 0 <==> forall|j: int| i < j < end ==> !conflicting(scenes[i], #[trigger] scenes[j]),
    decreases end - i,
{
    if end > i + 1 {
        lemma_conflict_row_empty(scenes, i, end - 1);
    }
}

/// Lint passes exactly when no two scenes share a priority and an `all`
/// feature key.
pub proof fn lemma_lint_passes_iff_no_overlap(scenes: Seq<Scene>, rows: int)
    requires
        0 <= rows <= scenes.len(),
    ensures
        conflict_pairs(scenes, rows).len() == 0 <==> forall|i: int, j: int|
            0 <= i < rows && i < j < scenes.len() ==> !conflicting(#[trigger] scenes[i], #[trigger] scenes[j]),
    decreases rows,
{
    if rows > 0 {
        lemma_lint_passes_iff_no_overlap(scenes, rows - 1);
        lemma_conflict_row_empty(scenes, rows - 1, scenes.len() as int);
    }
}

proof fn lemma_conflict_row_members(scenes: Seq<Scene>, i: int, end: int)
    ensures
        forall|p: (int, int)| #[trigger] conflict_row(scenes, i, end).contains(p) <==> (p.0 == i && i < p.1 < end
            && conflicting(scenes[i], scenes[p.1])),
    decreases end - i,
{
    if end > i + 1 {
        lemma_conflict_row_members(scenes, i, end - 1);
        let rest = conflict_row(scenes, i, end - 1);
        assert forall|p: (int, int)| #[trigger] conflict_row(scenes, i, end).contains(p) <==> (p.0 == i && i < p.1
            < end && conflicting(scenes[i], scenes[p.1])) by {
            if conflicting(scenes[i], scenes[end - 1]) {
                let row = rest.push((i, end - 1));
                if row.contains(p) {
                    let k = choose|k: int| 0 <= k < row.len() && row[k] == p;
                    if k < rest.len() {
                        assert(rest[k] == p);
                    }
                }
                if rest.contains(p) {
                    let k = choose|k: int| 0 <= k < rest.len() && rest[k] == p;
                    assert(row[k] == p);
                }
                if p == (i, end - 1) {
                    assert(row[rest.len() as int] == p);
                }
            }
        }
    } else {
        assert forall|p: (int, int)| #[trigger] conflict_row(scenes, i, end).contains(p) <==> (p.0 == i && i < p.1
            < end && conflicting(scenes[i], scenes[p.1])) by {
            assert(conflict_row(scenes, i, end).len() == 0);
        }
    }
}

proof fn lemma_conflict_pairs_members(scenes: Seq<Scene>, rows: int)
    ensures
        forall|p: (int, int)| #[trigger] conflict_pairs(scenes, rows).contains(p) <==> (0 <= p.0 < rows && p.0 < p.1
            < scenes.len() && conflicting(scenes[p.0], scenes[p.1])),
    decreases rows,
{
    if rows > 0 {
        lemma_conflict_pairs_members(scenes, rows - 1);
        lemma_conflict_row_members(scenes, rows - 1, scenes.len() as int);
        let a = conflict_pairs(scenes, rows - 1);
        let r = conflict_row(scenes, rows - 1, scenes.len() as int);
        assert forall|p: (int, int)| #[trigger] conflict_pairs(scenes, rows).contains(p) <==> (0 <= p.0 < rows && p.0
            < p.1 < scenes.len() && conflicting(scenes[p.0], scenes[p.1])) by {
            let ar = a + r;
            if ar.contains(p) {
                let k = choose|k: int| 0 <= k < ar.len() && ar[k] == p;
                if k < a.len() {
                    assert(a[k] == p);
                } else {
                    assert(r[k - a.len()] == p);
                }
            }
            if a.contains(p) {
                let k = choose|k: int| 0 <= k < a.len() && a[k] == p;
                assert(ar[k] == p);
            }
            if r.contains(p) {
                let k = choose|k: int| 0 <= k < r.len() && r[k] == p;
                assert(ar[a.len() + k] == p);
            }
        }
    } else {
        assert forall|p: (int, int)| #[trigger] conflict_pairs(scenes, rows).contains(p) <==> (0 <= p.0 < rows && p.0
            < p.1 < scenes.len() && conflicting(scenes[p.0], scenes[p.1])) by {
            assert(conflict_pairs(scenes, rows).len() == 0);
        }
    }
}

/// Lint reports exactly the overlapping pairs: a pair of positions `(i, j)`,
/// `i < j`, is among the reported conflicts exactly when the two scenes have
/// the same priority and some condition of the first scene's `all` list and
/// some condition of the second's (at any positions) name the same feature.
/// Nothing else is reported.
pub proof fn lemma_lint_reports_exactly_overlaps(scenes: Seq<Scene>)
    ensures
        forall|i: int, j: int| 0 <= i < j < scenes.len() ==> (conflict_pairs(scenes, scenes.len() as int).contains(
            (i, j),
        ) <==> (#[trigger] scenes[i]).priority == (#[trigger] scenes[j]).priority && exists|x: int, y: int|
            0 <= x < scenes[i].match_rules.all@.len() && 0 <= y < scenes[j].match_rules.all@.len()
                && (#[trigger] scenes[i].match_rules.all@[x]).feature@
                == (#[trigger] scenes[j].match_rules.all@[y]).feature@),
        forall|p: (int, int)| #[trigger] conflict_pairs(scenes, scenes.len() as int).contains(p) ==> 0 <= p.0 < p.1
            < scenes.len(),
{
    lemma_conflict_pairs_members(scenes, scenes.len() as int);
}

/// Every candidate match comes from a scene of the list that matches the bundle.
pub proof fn lemma_matches_come_from_matching_scenes(scenes: Seq<Scene>, b: Map<Seq<char>, crate::feature::FeatureValue>, k: int)
    requires
        0 <= k < matches_of(scenes, b).len(),
    ensures
        exists|i: int| 0 <= i < scenes.len() && scene_matches(#[trigger] scenes[i], b)
            && matches_of(scenes, b)[k] == match_view(scenes[i], b),
    decreases scenes.len(),
{
    let init = scenes.drop_last();
    let rest = matches_of(init, b);
    if k < rest.len() {
        lemma_matches_come_from_matching_scenes(init, b, k);
        let i = choose|i: int| 0 <= i < init.len() && scene_matches(#[trigger] init[i], b)
            && rest[k] == match_view(init[i], b);
        assert(scenes[i] == init[i]);
    } else {
        assert(scene_matches(scenes[scenes.len() - 1], b));
    }
}

/// With the default components, the engine's evaluation is the rule
/// pipeline `evaluation`: matches of the scenes, the priority winner, the
/// threshold gate.
pub proof fn lemma_default_evaluation(g: ThresholdGate, c: CtxView, d: DecisionView)
    requires
        engine_evaluation(SimpleRuleMatcher, PriorityArbiter, g, c, d),
    ensures
        evaluation(c.scenes, c.bundle@, g, d),
{
    let h = choose|h: DecisionView|
        PriorityArbiter.decides(c, SimpleRuleMatcher.matches_spec(c.bundle, c.scenes), h) && d == gated_by(
            g.verdict_of(h, c),
            h,
        );
    assert(arbitrated(c.scenes, matches_of(c.scenes, c.bundle@), h) && d == gated(g, h));
}

/// A reflection never settles a scene on its own: a proposed new scene, or an
/// honest unknown, leaves the decision without a scene; only a mapping onto a
/// named scene gives one, at confidence at least 0.60, from `Reflection`.
pub proof fn lemma_only_mappings_decide(r: Reflection, fallback: DecisionView)
    ensures
        reflection_decision(r, fallback).scene_id is Some <==> r is MapsTo,
        r is MapsTo ==> reflection_decision(r, fallback).confidence >= 600_000
            && reflection_decision(r, fallback).source == DecisionSource::Reflection,
        reflection_decision(r, fallback).rationale.len() == 1,
{
}

/// Hot-path soundness: a decision of `evaluate` either names no scene, or
/// names a loaded scene that matches the bundle; when it comes from the rules
/// (`Rule`) its confidence reached the confidence gate's accept threshold, and otherwise
/// it is an escalated decision (`Fallback`) whose confidence lies strictly
/// between the confidence gate's thresholds. A decision that names a scene
/// always carries evidence.
pub proof fn lemma_evaluation_sound(scenes: Seq<Scene>, b: Map<Seq<char>, crate::feature::FeatureValue>, g: ThresholdGate, d: DecisionView)
    requires
        evaluation(scenes, b, g, d),
    ensures
        d.scene_id is Some ==> exists|i: int| 0 <= i < scenes.len() && scene_matches(#[trigger] scenes[i], b)
            && d.scene_id == Some(scenes[i].id@),
        d.scene_id is Some ==> (d.source == DecisionSource::Rule && d.confidence >= g.accept) || (d.source
            == DecisionSource::Fallback && g.reject_below < d.confidence < g.accept),
        d.scene_id is Some ==> d.rationale.len() > 0,
{
    let h = choose|h: DecisionView| arbitrated(scenes, matches_of(scenes, b), h) && d == gated(g, h);
    let ms = matches_of(scenes, b);
    if d.scene_id is Some && ms.len() > 0 {
        let k = choose|k: int| is_winner(ms, k) && h == decision_for(scenes, ms[k]);
        lemma_matches_come_from_matching_scenes(scenes, b, k);
    }
}

/// Top-level scene engine, request/response: a rule matcher `M`, an
/// arbiter `A` and a confidence gate `G` over loaded scenes and a feature
/// registry.
pub struct SceneEngine<M, A, G> {
    scenes: Vec<Scene>,
    registry: FeatureRegistry,
    matcher: M,
    arbiter: A,
    gate: G,
}

/// What the asynchronous path does after the hot path: either the decision
/// is final, or the case goes to the reflector and `fallback` is the decision
/// its answer is settled against.
#[derive(Debug)]
pub enum ColdPathStep {
    /// Final decision; no reflection.
    Done(SceneDecision),
    /// Reflect on `case`; settle the answer against `fallback`.
    Reflect {
        /// The escalated case.
        case: PendingCase,
        /// The hot-path decision that was escalated.
        fallback: SceneDecision,
    },
}

/// The engine built by `SceneEngine::new`.
impl SceneEngine<SimpleRuleMatcher, PriorityArbiter, ThresholdGate> {
    /// Wire the default components (SimpleRuleMatcher, PriorityArbiter,
    /// default ThresholdGate, empty registry) over loaded scenes.
    pub fn new(scenes: Vec<Scene>) -> (r: Self)
        ensures
            r.scene_list() == scenes@,
            r.matcher_spec() == SimpleRuleMatcher,
            r.arbiter_spec() == PriorityArbiter,
            r.gate_spec() == ThresholdGate::spec_default(),
            r.registry_spec()@ == Map::<Seq<char>, crate::feature::FeatureDescriptor>::empty(),
    {
        SceneEngine {
            scenes,
            registry: FeatureRegistry::new(),
            matcher: SimpleRuleMatcher::new(),
            arbiter: PriorityArbiter::new(),
            gate: ThresholdGate::default(),
        }
    }

    /// The case handed to the cold path for an escalated decision: id
    /// `case-<milliseconds>` from the bundle's timestamp (0 before the epoch).
    pub fn escalation_case(bundle: &FeatureBundle, reason: String, decision: SceneDecision) -> (r: PendingCase)
        ensures
            escalated_case(*bundle, reason@, decision, r),
    {
        escalation_case(bundle, reason, decision)
    }
}

/// `r` is the case for escalating `decision` on `bundle` with `reason`.
pub open spec fn escalated_case(bundle: FeatureBundle, reason: Seq<char>, decision: SceneDecision, r: PendingCase) -> bool {
    &&& r.id@ == "case-"@ + decimal(if bundle.timestamp < 0 { 0nat } else { (bundle.timestamp / 1000) as nat })
    &&& r.timestamp == bundle.timestamp
    &&& r.reason@ == reason
    &&& r.failed_decision == decision
    &&& r.features@.len() == bundle.entries().len()
    &&& forall|i: int| 0 <= i < r.features@.len() ==> (#[trigger] r.features@[i]).0@ == bundle.entries()[i].0@
        && r.features@[i].1.same_as(bundle.entries()[i].1)
}

/// The case handed to the cold path for an escalated decision: id
/// `case-<milliseconds>` from the bundle's timestamp (0 before the epoch).
pub fn escalation_case(bundle: &FeatureBundle, reason: String, decision: SceneDecision) -> (r: PendingCase)
    ensures
        escalated_case(*bundle, reason@, decision, r),
        r.reason == reason,
{
    let mut id = String::new();
    push_str(&mut id, "case-");
    let ms: u64 = if bundle.timestamp < 0 { 0 } else { (bundle.timestamp / 1000) as u64 };
    push_decimal(&mut id, ms);
    PendingCase::from_bundle(id, bundle, reason, decision)
}

impl<M: RuleMatcher, A: Arbiter, G: ConfidenceGate> SceneEngine<M, A, G> {
    /// Loaded scenes.
    pub closed spec fn scene_list(&self) -> Seq<Scene> {
        self.scenes@
    }

    /// The rule matcher in force.
    pub closed spec fn matcher_spec(&self) -> M {
        self.matcher
    }

    /// The arbiter in force.
    pub closed spec fn arbiter_spec(&self) -> A {
        self.arbiter
    }

    /// The confidence gate in force.
    pub closed spec fn gate_spec(&self) -> G {
        self.gate
    }

    /// The registry in force.
    pub closed spec fn registry_spec(&self) -> FeatureRegistry {
        self.registry
    }

    /// The evaluation context of `bundle` in this engine.
    pub open spec fn context(&self, bundle: FeatureBundle) -> CtxView {
        CtxView { scenes: self.scene_list(), bundle, registry: self.registry_spec() }
    }

    /// Override the feature registry.
    pub fn with_registry(self, registry: FeatureRegistry) -> (r: Self)
        ensures
            r.registry_spec() == registry,
            r.scene_list() == self.scene_list(),
            r.matcher_spec() == self.matcher_spec(),
            r.arbiter_spec() == self.arbiter_spec(),
            r.gate_spec() == self.gate_spec(),
    {
        SceneEngine { registry, ..self }
    }

    /// Override the confidence gate.
    pub fn with_gate<G2: ConfidenceGate>(self, gate: G2) -> (r: SceneEngine<M, A, G2>)
        ensures
            r.gate_spec() == gate,
            r.scene_list() == self.scene_list(),
            r.registry_spec() == self.registry_spec(),
            r.matcher_spec() == self.matcher_spec(),
            r.arbiter_spec() == self.arbiter_spec(),
    {
        SceneEngine { scenes: self.scenes, registry: self.registry, matcher: self.matcher, arbiter: self.arbiter, gate }
    }

    /// Override the rule matcher.
    pub fn with_matcher<M2: RuleMatcher>(self, matcher: M2) -> (r: SceneEngine<M2, A, G>)
        ensures
            r.matcher_spec() == matcher,
            r.scene_list() == self.scene_list(),
            r.registry_spec() == self.registry_spec(),
            r.arbiter_spec() == self.arbiter_spec(),
            r.gate_spec() == self.gate_spec(),
    {
        SceneEngine { scenes: self.scenes, registry: self.registry, matcher, arbiter: self.arbiter, gate: self.gate }
    }

    /// Override the arbiter.
    pub fn with_arbiter<A2: Arbiter>(self, arbiter: A2) -> (r: SceneEngine<M, A2, G>)
        ensures
            r.arbiter_spec() == arbiter,
            r.scene_list() == self.scene_list(),
            r.registry_spec() == self.registry_spec(),
            r.matcher_spec() == self.matcher_spec(),
            r.gate_spec() == self.gate_spec(),
    {
        SceneEngine { scenes: self.scenes, registry: self.registry, matcher: self.matcher, arbiter, gate: self.gate }
    }

    /// Access loaded scenes (for inspection).
    pub fn scenes(&self) -> (r: &[Scene])
        ensures
            r@ == self.scene_list(),
    {
        self.scenes.as_slice()
    }

    /// Access the feature registry.
    pub fn registry(&self) -> (r: &FeatureRegistry)
        ensures
            *r == self.registry_spec(),
    {
        &self.registry
    }

    /// The hot path up to the confidence gate: the arbiter's decision among
    /// the matcher's candidates, and the confidence gate's verdict on that decision.
    pub fn hot_path(&self, bundle: &FeatureBundle) -> (r: (SceneDecision, GateVerdict))
        ensures
            self.arbiter_spec().decides(
                self.context(*bundle),
                self.matcher_spec().matches_spec(*bundle, self.scene_list()),
                r.0@,
            ),
            r.1@ == self.gate_spec().verdict_of(r.0@, self.context(*bundle)),
    {
        let ctx = EvalCtx { bundle, registry: &self.registry, scenes: self.scenes.as_slice() };
        let matches = self.matcher.match_scenes(bundle, self.scenes.as_slice());
        let decision = self.arbiter.decide(&ctx, matches.as_slice());
        let verdict = self.gate.verdict(&decision, &ctx);
        (decision, verdict)
    }

    /// Evaluate a FeatureBundle through the hot path only.
    ///
    /// Accepted decisions come back as decided, rejected ones as `Unknown`;
    /// an escalated decision comes back with `source = Fallback` and a note
    /// that the cold path was skipped.
    pub fn evaluate(&self, bundle: &FeatureBundle) -> (d: SceneDecision)
        ensures
            engine_evaluation(self.matcher_spec(), self.arbiter_spec(), self.gate_spec(), self.context(*bundle), d@),
    {
        let (decision, verdict) = self.hot_path(bundle);
        let ghost h = decision@;
        let ghost c = self.context(*bundle);
        assert(self.arbiter_spec().decides(c, self.matcher_spec().matches_spec(c.bundle, c.scenes), h));
        match verdict {
            GateVerdict::Accept => {
                assert(decision@ == gated_by(self.gate_spec().verdict_of(h, c), h));
                decision
            },
            GateVerdict::Reject => {
                let u = SceneDecision::unknown();
                assert(u@ == gated_by(self.gate_spec().verdict_of(h, c), h));
                u
            },
            GateVerdict::Escalate { reason } => {
                let mut d = decision;
                d.source = DecisionSource::Fallback;
                let mut note = String::new();
                push_str(&mut note, "gate escalated (reason: ");
                push_str(&mut note, reason.as_str());
                push_str(&mut note, ") — sync evaluate() skipped Cold Path");
                let ghost prev = d.rationale@;
                let e = Evidence { kind: EvidenceKind::Reflection, description: note };
                let ghost ev = e@;
                d.rationale.push(e);
                assert(evidence_views(d.rationale@) =~= evidence_views(prev).push(ev));
                assert(d@ == gated_by(self.gate_spec().verdict_of(h, c), h));
                d
            },
        }
    }

    /// The first step of the asynchronous path: an accepted decision is
    /// final, a rejected one is `Unknown`, and an escalated one goes to the
    /// reflector as a case, with the decision kept to settle the answer.
    pub fn cold_path_step(&self, bundle: &FeatureBundle) -> (r: ColdPathStep)
        ensures
            exists|h: DecisionView|
                self.arbiter_spec().decides(
                    self.context(*bundle),
                    self.matcher_spec().matches_spec(*bundle, self.scene_list()),
                    h,
                ) && match self.gate_spec().verdict_of(h, self.context(*bundle)) {
                    VerdictView::Accept => r matches ColdPathStep::Done(d) && d@ == h,
                    VerdictView::Reject => r matches ColdPathStep::Done(d) && d@ == unknown_view(),
                    VerdictView::Escalate(reason) => r matches ColdPathStep::Reflect { case, fallback }
                        && fallback@ == h && escalated_case(*bundle, reason, case.failed_decision, case)
                        && case.failed_decision@ == h,
                },
    {
        let (decision, verdict) = self.hot_path(bundle);
        match verdict {
            GateVerdict::Accept => ColdPathStep::Done(decision),
            GateVerdict::Reject => ColdPathStep::Done(SceneDecision::unknown()),
            GateVerdict::Escalate { reason } => {
                let case = escalation_case(bundle, reason, decision.copy());
                ColdPathStep::Reflect { case, fallback: decision }
            },
        }
    }
}

} // verus!
