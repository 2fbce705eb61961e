//! Scene, SceneDecision, Evidence — domain types of the engine's output.

use vstd::prelude::*;

use crate::dsl::schema::{Describe, MatchRules};

verus! {

/// A compiled scene.
#[derive(Debug)]
pub struct Scene {
    /// Unique scene id (e.g. `"online_meeting"`).
    pub id: String,
    /// Schema version (bump on breaking match rule changes).
    pub version: u32,
    /// Human-readable description template.
    pub describe: Describe,
    /// Match conditions (all/any/none).
    pub match_rules: MatchRules,
    /// Priority for tie-breaking (higher wins).
    pub priority: i32,
}

/// Where a `SceneDecision` came from.
#[derive(Debug, Clone, Copy, PartialEq, Eq, Structural)]
pub enum DecisionSource {
    /// Matched by rule engine (hot path).
    Rule,
    /// Matched by embedding similarity.
    Embedding,
    /// Produced by LLM reflection (cold path).
    Reflection,
    /// Fallback when no other source produced a confident decision.
    Fallback,
}

/// Kind of evidence.
#[derive(Debug, Clone, Copy, PartialEq, Eq, Structural)]
pub enum EvidenceKind {
    /// A rule condition fired.
    RuleFired,
    /// A feature value contributed.
    FeatureValue,
    /// LLM reflection step.
    Reflection,
}

/// Single piece of evidence supporting a scene decision.
#[derive(Debug)]
pub struct Evidence {
    /// What kind of evidence this is.
    pub kind: EvidenceKind,
    /// Human-readable description.
    pub description: String,
}

impl View for Evidence {
    type V = (EvidenceKind, Seq<char>);

    open spec fn view(&self) -> (EvidenceKind, Seq<char>) {
        (self.kind, self.description@)
    }
}

impl Clone for Evidence {
    fn clone(&self) -> (r: Self)
        ensures
            r == *self,
    {
        Evidence { kind: self.kind, description: self.description.clone() }
    }
}

/// The views of a list of evidence.
pub open spec fn evidence_views(s: Seq<Evidence>) -> Seq<(EvidenceKind, Seq<char>)> {
    s.map_values(|e: Evidence| e@)
}

/// Abstract decision: strings as character sequences.
pub struct DecisionView {
    pub scene_id: Option<Seq<char>>,
    pub confidence: int,
    pub description: Option<Seq<char>>,
    pub source: DecisionSource,
    pub rationale: Seq<(EvidenceKind, Seq<char>)>,
}

pub open spec fn opt_view(o: Option<String>) -> Option<Seq<char>> {
    match o {
        Some(s) => Some(s@),
        None => None,
    }
}

/// Final decision output for one evaluation.
#[derive(Debug)]
pub struct SceneDecision {
    /// Identified scene; `None` for `Unknown`.
    pub scene_id: Option<String>,
    /// Confidence in `[0, SCALE]` (fixed-point).
    pub confidence: i64,
    /// Rendered description (from Scene.describe template).
    pub description: Option<String>,
    /// Origin of this decision.
    pub source: DecisionSource,
    /// Supporting evidence (audit trail).
    pub rationale: Vec<Evidence>,
}

impl View for SceneDecision {
    type V = DecisionView;

    open spec fn view(&self) -> DecisionView {
        DecisionView {
            scene_id: opt_view(self.scene_id),
            confidence: self.confidence as int,
            description: opt_view(self.description),
            source: self.source,
            rationale: evidence_views(self.rationale@),
        }
    }
}

/// The `Unknown` decision.
pub open spec fn unknown_view() -> DecisionView {
    DecisionView {
        scene_id: None,
        confidence: 0,
        description: None,
        source: DecisionSource::Fallback,
        rationale: Seq::empty(),
    }
}

impl SceneDecision {
    /// Construct an `Unknown` decision (no scene matched).
    pub fn unknown() -> (r: Self)
        ensures
            r@ == unknown_view(),
    {
        let r = SceneDecision {
            scene_id: None,
            confidence: 0,
            description: None,
            source: DecisionSource::Fallback,
            rationale: Vec::new(),
        };
        assert(evidence_views(r.rationale@) =~= Seq::empty());
        r
    }

    /// Whether this decision identified a scene.
    pub fn is_known(&self) -> (r: bool)
        ensures
            r == (self.scene_id is Some),
    {
        self.scene_id.is_some()
    }

    /// Deep copy.
    pub fn copy(&self) -> (r: Self)
        ensures
            r@ == self@,
    {
        let rationale = clone_evidence(&self.rationale);
        SceneDecision {
            scene_id: match &self.scene_id {
                Some(s) => Some(s.clone()),
                None => None,
            },
            confidence: self.confidence,
            description: match &self.description {
                Some(s) => Some(s.clone()),
                None => None,
            },
            source: self.source,
            rationale,
        }
    }
}

/// Copy of a list of evidence.
pub fn clone_evidence(v: &Vec<Evidence>) -> (r: Vec<Evidence>)
    ensures
        r@ == v@,
        evidence_views(r@) == evidence_views(v@),
{
    let mut r: Vec<Evidence> = Vec::new();
    let mut i: usize = 0;
    while i < v.len()
        invariant
            i <= v@.len(),
            r@ == v@.take(i as int),
        decreases v@.len() - i,
    {
        r.push(v[i].clone());
        assert(v@.take(i as int).push(v@[i as int]) =~= v@.take(i + 1));
        i = i + 1;
    }
    assert(v@.take(v@.len() as int) =~= v@);
    r
}

} // verus!
