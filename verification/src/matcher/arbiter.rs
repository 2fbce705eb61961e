//! Arbiter — combine candidate matches into a single SceneDecision.

use vstd::prelude::*;

use crate::feature::FeatureBundle;
use crate::matcher::rule::{match_views, MatchView, SceneMatch};
use crate::registry::FeatureRegistry;
use crate::scene::{
    clone_evidence, evidence_views, unknown_view, DecisionSource, DecisionView, Evidence,
    EvidenceKind, Scene, SceneDecision,
};
use crate::text::{
    char_seq_lt, fixed2_text, int_text, lemma_char_seq_lt_asymmetric, lemma_char_seq_lt_irreflexive,
    lemma_char_seq_lt_total, lemma_char_seq_lt_transitive, push_fixed2, push_int, push_str, str_eq,
    str_lt,
};

verus! {

/// Evaluation context passed through the hot path.
pub struct EvalCtx<'a> {
    /// Feature bundle being evaluated.
    pub bundle: &'a FeatureBundle,
    /// Registered features (for provenance / unit awareness).
    pub registry: &'a FeatureRegistry,
    /// Full scene list (for describe template rendering).
    pub scenes: &'a [Scene],
}

/// Abstract evaluation context: the scenes, the bundle and the registry.
pub struct CtxView {
    pub scenes: Seq<Scene>,
    pub bundle: FeatureBundle,
    pub registry: FeatureRegistry,
}

/// The abstract view of an evaluation context.
pub open spec fn ctx_view(ctx: EvalCtx<'_>) -> CtxView {
    CtxView { scenes: ctx.scenes@, bundle: *ctx.bundle, registry: *ctx.registry }
}

/// Arbiter strategy — picks the final decision from candidate matches.
pub trait Arbiter {
    /// Whether `d` is a decision this arbiter gives on matches `ms` in
    /// context `c`.
    spec fn decides(&self, c: CtxView, ms: Seq<MatchView>, d: DecisionView) -> bool;

    /// Produce the final SceneDecision.
    fn decide(&self, ctx: &EvalCtx<'_>, matches: &[SceneMatch]) -> (d: SceneDecision)
        ensures
            self.decides(ctx_view(*ctx), match_views(matches@), d@),
    ;
}

/// `a` beats `b`: higher priority, then higher confidence, then the
/// alphabetically smaller scene id.
pub open spec fn beats(a: MatchView, b: MatchView) -> bool {
    a.priority > b.priority || (a.priority == b.priority && (a.confidence > b.confidence || (a.confidence
        == b.confidence && char_seq_lt(a.scene_id, b.scene_id))))
}

/// `k` is the winner: nothing beats it, and it beats every earlier match (the
/// first of equally ranked matches wins).
pub open spec fn is_winner(ms: Seq<MatchView>, k: int) -> bool {
    &&& 0 <= k < ms.len()
    &&& forall|j: int| 0 <= j < ms.len() ==> !beats(#[trigger] ms[j], ms[k])
    &&& forall|j: int| 0 <= j < k ==> beats(ms[k], #[trigger] ms[j])
}

pub proof fn lemma_beats_irreflexive(a: MatchView)
    ensures
        !beats(a, a),
{
    lemma_char_seq_lt_irreflexive(a.scene_id);
}

pub proof fn lemma_beats_transitive(a: MatchView, b: MatchView, c: MatchView)
    requires
        beats(a, b),
        beats(b, c),
    ensures
        beats(a, c),
{
    if a.priority == b.priority && b.priority == c.priority && a.confidence == b.confidence && b.confidence
        == c.confidence {
        lemma_char_seq_lt_transitive(a.scene_id, b.scene_id, c.scene_id);
    }
}

/// If `a` beats `c` and `b` does not beat `c`, then `a` beats `b`.
pub proof fn lemma_beats_over_unbeaten(a: MatchView, b: MatchView, c: MatchView)
    requires
        beats(a, c),
        !beats(b, c),
    ensures
        beats(a, b),
{
    if b.priority == c.priority && b.confidence == c.confidence {
        if b.scene_id != c.scene_id {
            lemma_char_seq_lt_total(b.scene_id, c.scene_id);
        }
        if a.priority == c.priority && a.confidence == c.confidence {
            if b.scene_id == c.scene_id {
            } else {
                lemma_char_seq_lt_transitive(a.scene_id, c.scene_id, b.scene_id);
            }
        }
    }
}

/// Arbitration is well defined: at most one match is the winner.
pub proof fn lemma_winner_unique(ms: Seq<MatchView>, k1: int, k2: int)
    requires
        is_winner(ms, k1),
        is_winner(ms, k2),
    ensures
        k1 == k2,
{
    if k1 < k2 {
        assert(beats(ms[k2], ms[k1]));
    } else if k2 < k1 {
        assert(beats(ms[k1], ms[k2]));
    }
}

/// The winner has the highest priority, and the highest confidence among
/// matches of that priority.
pub proof fn lemma_winner_is_maximal(ms: Seq<MatchView>, k: int, j: int)
    requires
        is_winner(ms, k),
        0 <= j < ms.len(),
    ensures
        ms[j].priority <= ms[k].priority,
        ms[j].priority == ms[k].priority ==> ms[j].confidence <= ms[k].confidence,
{
    assert(!beats(ms[j], ms[k]));
}

/// Index of the first scene with id `id`.
pub open spec fn scene_index(scenes: Seq<Scene>, id: Seq<char>) -> Option<int> {
    if exists|i: int| 0 <= i < scenes.len() && (#[trigger] scenes[i]).id@ == id {
        Some(
            choose|i: int|
                0 <= i < scenes.len() && (#[trigger] scenes[i]).id@ == id && forall|j: int|
                    0 <= j < i ==> (#[trigger] scenes[j]).id@ != id,
        )
    } else {
        None
    }
}

/// Text of the arbiter's own evidence entry.
pub open spec fn arbiter_note(m: MatchView) -> Seq<char> {
    "arbiter chose '"@ + m.scene_id + "' (priority="@ + int_text(m.priority) + ", confidence="@
        + fixed2_text(m.confidence) + ")"@
}

/// The decision for winner `m`.
pub open spec fn decision_for(scenes: Seq<Scene>, m: MatchView) -> DecisionView {
    DecisionView {
        scene_id: Some(m.scene_id),
        confidence: m.confidence,
        description: match scene_index(scenes, m.scene_id) {
            Some(i) => Some(scenes[i].describe.template@),
            None => None,
        },
        source: DecisionSource::Rule,
        rationale: m.evidence.push((EvidenceKind::RuleFired, arbiter_note(m))),
    }
}

/// Whether `d` is the arbiter's decision on `ms`: `Unknown` for no match,
/// else the decision for the winner.
pub open spec fn arbitrated(scenes: Seq<Scene>, ms: Seq<MatchView>, d: DecisionView) -> bool {
    if ms.len() == 0 {
        d == unknown_view()
    } else {
        exists|k: int| is_winner(ms, k) && d == decision_for(scenes, ms[k])
    }
}

/// Priority-then-confidence arbiter:
/// 1. Pick candidate(s) with highest `priority`.
/// 2. Among those, pick highest `confidence`.
/// 3. Tie-break by scene_id (alphabetical).
#[derive(Debug, Default, Clone, Copy)]
pub struct PriorityArbiter;

fn find_scene<'a>(scenes: &'a [Scene], id: &str) -> (r: Option<&'a Scene>)
    ensures
        match scene_index(scenes@, id@) {
            Some(i) => r matches Some(s) && *s == scenes@[i],
            None => r is None,
        },
{
    let mut i: usize = 0;
    while i < scenes.len()
        invariant
            i <= scenes@.len(),
            forall|j: int| 0 <= j < i ==> (#[trigger] scenes@[j]).id@ != id@,
        decreases scenes@.len() - i,
    {
        if str_eq(scenes[i].id.as_str(), id) {
            proof {
                let k = choose|k: int|
                    0 <= k < scenes@.len() && (#[trigger] scenes@[k]).id@ == id@ && forall|j: int|
                        0 <= j < k ==> (#[trigger] scenes@[j]).id@ != id@;
                assert(k == i as int) by {
                    if k < i {
                    } else if k > i {
                        assert(scenes@[i as int].id@ == id@);
                    }
                }
            }
            return Some(&scenes[i]);
        }
        i = i + 1;
    }
    None
}

impl PriorityArbiter {
    /// Create an instance.
    pub fn new() -> (r: Self) {
        PriorityArbiter
    }

    fn beats_exec(a: &SceneMatch, b: &SceneMatch) -> (r: bool)
        ensures
            r == beats(a@, b@),
    {
        a.priority > b.priority || (a.priority == b.priority && (a.confidence > b.confidence || (
        a.confidence == b.confidence && str_lt(a.scene_id.as_str(), b.scene_id.as_str()))))
    }
}

impl Arbiter for PriorityArbiter {
    /// `Unknown` for no match, else the decision for the winner.
    open spec fn decides(&self, c: CtxView, ms: Seq<MatchView>, d: DecisionView) -> bool {
        arbitrated(c.scenes, ms, d)
    }

    fn decide(&self, ctx: &EvalCtx<'_>, matches: &[SceneMatch]) -> (d: SceneDecision)
    {
        let ghost ms = match_views(matches@);
        if matches.len() == 0 {
            return SceneDecision::unknown();
        }
        let mut bk: usize = 0;
        let mut i: usize = 1;
        while i < matches.len()
            invariant
                ms == match_views(matches@),
                ms.len() == matches@.len(),
                0 < i <= matches@.len(),
                bk < i,
                forall|j: int| 0 <= j < i ==> !beats(#[trigger] ms[j], ms[bk as int]),
                forall|j: int| 0 <= j < bk ==> beats(ms[bk as int], #[trigger] ms[j]),
            decreases matches@.len() - i,
        {
            if Self::beats_exec(&matches[i], &matches[bk]) {
                proof {
                    let m = ms[i as int];
                    let c = ms[bk as int];
                    lemma_beats_irreflexive(m);
                    assert forall|j: int| 0 <= j < i + 1 implies !beats(#[trigger] ms[j], m) by {
                        if j < i && beats(ms[j], m) {
                            lemma_beats_transitive(ms[j], m, c);
                        }
                    }
                    assert forall|j: int| 0 <= j < i implies beats(m, #[trigger] ms[j]) by {
                        lemma_beats_over_unbeaten(m, ms[j], c);
                    }
                }
                bk = i;
            }
            i = i + 1;
        }
        let best = &matches[bk];
        assert(is_winner(ms, bk as int));
        let description = match find_scene(ctx.scenes, best.scene_id.as_str()) {
            Some(s) => Some(s.describe.template.clone()),
            None => None,
        };
        let mut rationale = clone_evidence(&best.evidence);
        let mut note = String::new();
        push_str(&mut note, "arbiter chose '");
        push_str(&mut note, best.scene_id.as_str());
        push_str(&mut note, "' (priority=");
        push_int(&mut note, best.priority as i64);
        push_str(&mut note, ", confidence=");
        push_fixed2(&mut note, best.confidence);
        push_str(&mut note, ")");
        let ghost prev = rationale@;
        let e = Evidence { kind: EvidenceKind::RuleFired, description: note };
        let ghost ev = e@;
        rationale.push(e);
        assert(evidence_views(rationale@) =~= evidence_views(prev).push(ev));
        let d = SceneDecision {
            scene_id: Some(best.scene_id.clone()),
            confidence: best.confidence,
            description,
            source: DecisionSource::Rule,
            rationale,
        };
        assert(d@ == decision_for(ctx.scenes@, ms[bk as int]));
        d
    }
}

} // verus!
