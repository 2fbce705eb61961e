//! perceptkit — declarative, auditable scene decisions for AI agents.

pub mod audio;
pub mod cli;
pub mod dsl;
pub mod engine;
pub mod error;
pub mod feature;
pub mod gate;
pub mod keyed;
pub mod matcher;
pub mod queue;
pub mod reflector;
pub mod registry;
pub mod scene;
pub mod signal;
pub mod text;
pub mod trace;
pub mod transition;

pub use engine::{LintReport, SceneEngine};
pub use error::Error;
pub use feature::{FeatureBundle, FeatureDescriptor, FeatureKey, FeatureKind, FeatureValue, TimeWindow};
pub use gate::{ConfidenceGate, GateVerdict, ThresholdGate};
pub use matcher::arbiter::{Arbiter, EvalCtx, PriorityArbiter};
pub use matcher::rule::{RuleMatcher, SceneMatch, SimpleRuleMatcher};
pub use queue::{PendingRow, PendingStatus};
pub use reflector::mock::MockReflector;
pub use reflector::noop::NoopReflector;
pub use reflector::{PendingCase, Reflection, ReflectionBudget};
pub use registry::FeatureRegistry;
pub use scene::{DecisionSource, Evidence, EvidenceKind, Scene, SceneDecision};
pub use signal::{Modality, Signal};
pub use transition::{FlappingFsm, FsmConfig, TransitionOutput};

use vstd::prelude::*;

verus! {

/// Version of the library.
pub const VERSION: &'static str = "0.1.0";

} // verus!
