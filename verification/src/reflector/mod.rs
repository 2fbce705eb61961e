//! Cold path — reflection on cases the hot path could not settle.
//!
//! The asynchronous `Reflector` interface lives with the runtime; this module
//! holds its data types and the deterministic reflectors' logic.

pub mod local;
pub mod mock;
pub mod noop;

use vstd::prelude::*;

use crate::error::Error;
use crate::feature::{FeatureBundle, FeatureValue};
use crate::scene::SceneDecision;

verus! {

/// Budget enforcement for reflection calls — never hang.
#[derive(Debug, Clone, Copy)]
pub struct ReflectionBudget {
    /// Max wall-clock time in milliseconds.
    pub max_time_ms: u64,
    /// Max tokens (for LLM-backed reflectors).
    pub max_tokens: u32,
    /// Max tool calls allowed per reflection.
    pub max_tool_calls: u32,
}

impl Default for ReflectionBudget {
    fn default() -> (r: Self)
        ensures
            r.max_time_ms == 2000 && r.max_tokens == 1024 && r.max_tool_calls == 7,
    {
        ReflectionBudget { max_time_ms: 2000, max_tokens: 1024, max_tool_calls: 7 }
    }
}

/// A pending case — the hot path produced a low-confidence decision,
/// escalated here.
#[derive(Debug)]
pub struct PendingCase {
    /// Unique case id.
    pub id: String,
    /// Timestamp (unix microseconds).
    pub timestamp: i64,
    /// Feature readings at the time, as `(key, value)` pairs.
    pub features: Vec<(String, FeatureValue)>,
    /// Reason for escalation from the confidence gate.
    pub reason: String,
    /// The decision that was escalated.
    pub failed_decision: SceneDecision,
}

impl PendingCase {
    /// Build a pending case from hot-path components.
    pub fn from_bundle(id: String, bundle: &FeatureBundle, reason: String, failed_decision: SceneDecision) -> (r: Self)
        ensures
            r.id == id,
            r.timestamp == bundle.timestamp,
            r.reason == reason,
            r.failed_decision == failed_decision,
            r.features@.len() == bundle.entries().len(),
            forall|i: int| 0 <= i < r.features@.len() ==> (#[trigger] r.features@[i]).0@ == bundle.entries()[i].0@
                && r.features@[i].1.same_as(bundle.entries()[i].1),
    {
        let entries = bundle.iter();
        let mut features: Vec<(String, FeatureValue)> = Vec::new();
        let mut i: usize = 0;
        while i < entries.len()
            invariant
                entries@ == bundle.entries(),
                i <= entries@.len(),
                features@.len() == i,
                forall|j: int| 0 <= j < i ==> (#[trigger] features@[j]).0@ == entries@[j].0@
                    && features@[j].1.same_as(entries@[j].1),
            decreases entries@.len() - i,
        {
            features.push((entries[i].0.as_str().to_owned(), entries[i].1.copy()));
            i = i + 1;
        }
        PendingCase { id, timestamp: bundle.timestamp, features, reason, failed_decision }
    }
}

/// Outcome of a reflection — three-way output.
#[derive(Debug)]
pub enum Reflection {
    /// Map this case onto an existing scene.
    MapsTo {
        /// Known scene id the case maps to.
        scene_id: String,
        /// LLM-provided rationale.
        rationale: String,
    },
    /// Propose a brand-new scene (enters the pending queue for human review).
    Propose {
        /// Proposed YAML of the new scene.
        yaml: String,
        /// Example feature bundles supporting this proposal.
        examples: Vec<String>,
    },
    /// Honest "I don't know" — emit with rich metadata.
    Unknown {
        /// Natural-language summary of features.
        summary: String,
        /// Top-weighted features (for debug).
        top_features: Vec<String>,
    },
}

impl Reflection {
    /// Construct an `Unknown` reflection from a brief summary.
    pub fn unknown(summary: &str) -> (r: Self)
        ensures
            r matches Reflection::Unknown { summary: s, top_features: t } && s@ == summary@ && t@.len() == 0,
    {
        Reflection::Unknown { summary: summary.to_owned(), top_features: Vec::new() }
    }
}

/// Stable fingerprint for prompt/program version — enables snapshot tests.
#[derive(Debug, Clone, PartialEq, Eq)]
pub struct PromptHash(pub String);

/// Reflection errors.
#[derive(Debug)]
pub enum ReflectError {
    /// Budget exceeded (time / tokens / tool calls).
    Budget(String),
    /// Backend (LLM / network / model) error.
    Backend(String),
    /// Produced output was invalid.
    InvalidProposal(String),
    /// Upstream core error.
    Core(Error),
}

} // verus!
