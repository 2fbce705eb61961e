use perceptkit::dsl::schema::{Condition, Describe, MatchRules, Op, Value};
use perceptkit::engine::{lint_scenes, reflection_to_decision, settle_reflection, ColdPathStep, SceneEngine};
use perceptkit::matcher::arbiter::{CtxView, EvalCtx};
use perceptkit::feature::{FeatureBundle, FeatureKey, FeatureValue};
use perceptkit::gate::{ConfidenceGate, GateVerdict, ThresholdGate, VerdictView};
use perceptkit::reflector::noop::NoopReflector;
use perceptkit::reflector::{ReflectError, Reflection};
use perceptkit::scene::{DecisionSource, DecisionView, EvidenceKind, Scene, SceneDecision};

fn gt(feature: &str, v: i64) -> Condition {
    Condition { feature: feature.into(), op: Op::Gt, value: Value::Number(v) }
}

fn scene(id: &str, all: Vec<Condition>, priority: i32) -> Scene {
    Scene {
        id: id.into(),
        version: 1,
        describe: Describe { template: id.into(), fields: vec![] },
        match_rules: MatchRules { all, any: vec![], none: vec![] },
        priority,
    }
}

fn ratio_bundle(v: i64) -> FeatureBundle {
    let mut b = FeatureBundle::new(0);
    b.insert(FeatureKey::new("audio.voice_ratio").unwrap(), FeatureValue::F64(v));
    b
}

#[test]
fn from_dir_loads_scenes() {
    let engine = SceneEngine::new(vec![scene("x", vec![gt("audio.voice_ratio", 500_000)], 5)]);
    assert_eq!(engine.scenes().len(), 1);
}

#[test]
fn evaluate_matches_scene() {
    let engine = SceneEngine::new(vec![scene("meeting", vec![gt("audio.voice_ratio", 500_000)], 10)]);
    let d = engine.evaluate(&ratio_bundle(800_000));
    assert_eq!(d.scene_id.as_deref(), Some("meeting"));
}

#[test]
fn evaluate_empty_bundle_returns_unknown() {
    let engine = SceneEngine::new(vec![scene("x", vec![gt("audio.voice_ratio", 500_000)], 0)]);
    let d = engine.evaluate(&FeatureBundle::new(0));
    assert!(!d.is_known());
}

#[test]
fn lint_detects_overlapping_priority_conflict() {
    let scenes = vec![
        scene("a", vec![gt("audio.voice_ratio", 500_000)], 10),
        scene("b", vec![gt("audio.voice_ratio", 700_000)], 10),
    ];
    let report = lint_scenes(&scenes);
    assert_eq!(report.scenes_ok, 2);
    assert_eq!(report.conflicts.len(), 1);
    assert!(!report.passed());
    assert_eq!(report.conflicts[0].scene_a, "a");
    assert_eq!(report.conflicts[0].scene_b, "b");
    assert_eq!(report.conflicts[0].reason, "same priority 10 and overlapping `all` feature keys");
}

#[test]
fn async_evaluate_falls_back_to_noop_reflector() {
    let engine = SceneEngine::new(vec![scene("x", vec![gt("audio.voice_ratio", 500_000)], 0)]);
    let b = FeatureBundle::new(0);
    let d = match engine.cold_path_step(&b) {
        ColdPathStep::Done(d) => d,
        ColdPathStep::Reflect { case, fallback } => settle_reflection(NoopReflector::new().reflect_case(&case), fallback),
    };
    assert!(!d.is_known());
}

#[test]
fn lint_passes_without_shared_keys_or_with_other_priority() {
    let scenes = vec![
        scene("a", vec![gt("audio.voice_ratio", 500_000)], 10),
        scene("b", vec![gt("audio.rms", 700_000)], 10),
        scene("c", vec![gt("audio.voice_ratio", 700_000)], 3),
    ];
    let report = lint_scenes(&scenes);
    assert_eq!(report.scenes_ok, 3);
    assert!(report.passed());
}

#[test]
fn mid_confidence_is_escalated_on_the_sync_path() {
    let engine = SceneEngine::new(vec![scene("x", vec![gt("audio.voice_ratio", 500_000)], 0)])
        .with_gate(ThresholdGate { accept: 1_100_000, reject_below: 50_000 });
    let d = engine.evaluate(&ratio_bundle(800_000));
    assert_eq!(d.scene_id.as_deref(), Some("x"));
    assert_eq!(d.source, DecisionSource::Fallback);
    let last = d.rationale.last().unwrap();
    assert_eq!(last.kind, EvidenceKind::Reflection);
    assert!(last.description.starts_with("gate escalated (reason: confidence 1.00"));
}

#[test]
fn map_reflection_keeps_at_least_sixty_percent() {
    let fallback = SceneDecision {
        scene_id: Some("x".into()),
        confidence: 450_000,
        description: None,
        source: DecisionSource::Rule,
        rationale: vec![],
    };
    let d = reflection_to_decision(
        Reflection::MapsTo { scene_id: "meeting".into(), rationale: "voices".into() },
        fallback,
    );
    assert_eq!(d.scene_id.as_deref(), Some("meeting"));
    assert_eq!(d.confidence, 600_000);
    assert_eq!(d.source, DecisionSource::Reflection);
    assert_eq!(d.rationale.len(), 1);
    assert_eq!(d.rationale[0].description, "voices");
}

#[test]
fn propose_and_failure_give_unknown() {
    let d = reflection_to_decision(
        Reflection::Propose { yaml: "id: n".into(), examples: vec![] },
        SceneDecision::unknown(),
    );
    assert!(!d.is_known());
    assert_eq!(d.rationale[0].description, "reflector proposed new scene (queued for review)");
    let e = settle_reflection(Err(ReflectError::Backend("down".into())), SceneDecision::unknown());
    assert!(!e.is_known());
    assert!(e.rationale.is_empty() || e.source == DecisionSource::Fallback);
}

#[test]
fn escalation_case_id_uses_milliseconds() {
    let mut b = ratio_bundle(800_000);
    b.timestamp = 12_345_678;
    let case = SceneEngine::escalation_case(&b, "why".into(), SceneDecision::unknown());
    assert_eq!(case.id, "case-12345");
    assert_eq!(case.timestamp, 12_345_678);
    assert_eq!(case.features.len(), 1);
    assert_eq!(case.reason, "why");
}

/// A gate that escalates every known decision.
struct AlwaysEscalate;

impl ConfidenceGate for AlwaysEscalate {
    // The trait's specification item: it states the verdict for the
    // verifier and is never called when the program runs.
    fn verdict_of(&self, _d: DecisionView, _c: CtxView) -> VerdictView {
        unreachable!()
    }

    fn verdict(&self, decision: &SceneDecision, _ctx: &EvalCtx<'_>) -> GateVerdict {
        if decision.is_known() { GateVerdict::Escalate { reason: "always".into() } } else { GateVerdict::Reject }
    }
}

#[test]
fn custom_gate_decides() {
    let engine = SceneEngine::new(vec![scene("x", vec![gt("audio.voice_ratio", 500_000)], 0)]).with_gate(AlwaysEscalate);
    let d = engine.evaluate(&ratio_bundle(800_000));
    assert_eq!(d.scene_id.as_deref(), Some("x"));
    assert_eq!(d.source, DecisionSource::Fallback);
    assert_eq!(
        d.rationale.last().unwrap().description,
        "gate escalated (reason: always) — sync evaluate() skipped Cold Path"
    );
    match engine.cold_path_step(&ratio_bundle(800_000)) {
        ColdPathStep::Reflect { case, fallback } => {
            assert_eq!(case.reason, "always");
            assert_eq!(fallback.scene_id.as_deref(), Some("x"));
        },
        other => panic!("unexpected {other:?}"),
    }
    assert!(!engine.evaluate(&FeatureBundle::new(0)).is_known());
}
