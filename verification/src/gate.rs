//! Confidence Gate — decides whether a SceneDecision is final or needs the
//! cold path.

use vstd::prelude::*;

use crate::matcher::arbiter::{ctx_view, CtxView, EvalCtx};
use crate::scene::{DecisionView, SceneDecision};
use crate::text::{fixed2_text, push_fixed2, push_str};

verus! {

/// Gate verdict — what to do with a hot-path decision.
#[derive(Debug, PartialEq, Eq)]
pub enum GateVerdict {
    /// Confident enough → emit decision as-is.
    Accept,
    /// Ambiguous / low-confidence → escalate to the cold-path Reflector.
    Escalate {
        /// Why the confidence gate chose to escalate (for audit).
        reason: String,
    },
    /// Confidently no-match → emit `Unknown` without escalation.
    Reject,
}

/// Abstract verdict.
pub enum VerdictView {
    Accept,
    Escalate(Seq<char>),
    Reject,
}

impl View for GateVerdict {
    type V = VerdictView;

    open spec fn view(&self) -> VerdictView {
        match *self {
            GateVerdict::Accept => VerdictView::Accept,
            GateVerdict::Escalate { reason } => VerdictView::Escalate(reason@),
            GateVerdict::Reject => VerdictView::Reject,
        }
    }
}

/// Gate strategy.
pub trait ConfidenceGate {
    /// The verdict this gate gives on decision `d` in context `c`.
    spec fn verdict_of(&self, d: DecisionView, c: CtxView) -> VerdictView;

    /// Classify a decision.
    fn verdict(&self, decision: &SceneDecision, ctx: &EvalCtx<'_>) -> (r: GateVerdict)
        ensures
            r@ == self.verdict_of(decision@, ctx_view(*ctx)),
    ;
}

/// Threshold-based gate:
/// - `confidence ≥ accept` → Accept
/// - `confidence ≤ reject_below` (or no scene) → Reject
/// - otherwise → Escalate
#[derive(Debug, Clone, Copy)]
pub struct ThresholdGate {
    /// Confidence at or above which to Accept (fixed-point).
    pub accept: i64,
    /// Confidence at or below which to Reject outright (fixed-point).
    pub reject_below: i64,
}

impl ThresholdGate {
    /// The default thresholds: accept at 0.70, reject at or below 0.05.
    pub open spec fn spec_default() -> ThresholdGate {
        ThresholdGate { accept: 700_000, reject_below: 50_000 }
    }
}

impl Default for ThresholdGate {
    fn default() -> (r: Self)
        ensures
            r == ThresholdGate::spec_default(),
    {
        ThresholdGate { accept: 700_000, reject_below: 50_000 }
    }
}

/// Text of the escalation reason.
pub open spec fn escalation_reason(c: int, g: ThresholdGate) -> Seq<char> {
    "confidence "@ + fixed2_text(c) + " in ("@ + fixed2_text(g.reject_below as int) + ", "@ + fixed2_text(
        g.accept as int,
    ) + ") — needs reflection"@
}

/// The verdict of a threshold gate on a decision.
pub open spec fn verdict_spec(g: ThresholdGate, d: DecisionView) -> VerdictView {
    if d.scene_id is None || d.confidence <= g.reject_below {
        VerdictView::Reject
    } else if d.confidence >= g.accept {
        VerdictView::Accept
    } else {
        VerdictView::Escalate(escalation_reason(d.confidence, g))
    }
}

impl ThresholdGate {
    /// Classify a decision (the context is not consulted).
    pub fn classify(&self, decision: &SceneDecision) -> (r: GateVerdict)
        ensures
            r@ == verdict_spec(*self, decision@),
    {
        let c = decision.confidence;
        if !decision.is_known() || c <= self.reject_below {
            return GateVerdict::Reject;
        }
        if c >= self.accept {
            return GateVerdict::Accept;
        }
        let mut reason = String::new();
        push_str(&mut reason, "confidence ");
        push_fixed2(&mut reason, c);
        push_str(&mut reason, " in (");
        push_fixed2(&mut reason, self.reject_below);
        push_str(&mut reason, ", ");
        push_fixed2(&mut reason, self.accept);
        push_str(&mut reason, ") — needs reflection");
        GateVerdict::Escalate { reason }
    }
}

impl ConfidenceGate for ThresholdGate {
    /// The threshold verdict; the context is not consulted.
    open spec fn verdict_of(&self, d: DecisionView, c: CtxView) -> VerdictView {
        verdict_spec(*self, d)
    }

    fn verdict(&self, decision: &SceneDecision, _ctx: &EvalCtx<'_>) -> (r: GateVerdict)
    {
        self.classify(decision)
    }
}

} // verus!
