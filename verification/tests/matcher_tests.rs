use perceptkit::dsl::schema::{Condition, Describe, MatchRules, Op, Value};
use perceptkit::feature::{FeatureBundle, FeatureKey, FeatureValue};
use perceptkit::gate::{ConfidenceGate, GateVerdict, ThresholdGate};
use perceptkit::matcher::arbiter::{Arbiter, EvalCtx, PriorityArbiter};
use perceptkit::matcher::rule::{RuleMatcher, SceneMatch, SimpleRuleMatcher};
use perceptkit::registry::FeatureRegistry;
use perceptkit::scene::{DecisionSource, Scene, SceneDecision};

fn make_match(id: &str, conf: i64, prio: i32) -> SceneMatch {
    SceneMatch { scene_id: id.into(), confidence: conf, evidence: vec![], priority: prio }
}

fn cond(feature: &str, op: Op, value: Value) -> Condition {
    Condition { feature: feature.into(), op, value }
}

fn scene(id: &str, all: Vec<Condition>, any: Vec<Condition>, none: Vec<Condition>, priority: i32) -> Scene {
    Scene {
        id: id.into(),
        version: 1,
        describe: Describe { template: id.into(), fields: vec![] },
        match_rules: MatchRules { all, any, none },
        priority,
    }
}

#[test]
fn empty_returns_unknown() {
    let reg = FeatureRegistry::new();
    let bundle = FeatureBundle::new(0);
    let ctx = EvalCtx { bundle: &bundle, registry: &reg, scenes: &[] };
    let decision = PriorityArbiter::new().decide(&ctx, &[]);
    assert!(!decision.is_known());
}

#[test]
fn higher_priority_wins() {
    let reg = FeatureRegistry::new();
    let bundle = FeatureBundle::new(0);
    let ctx = EvalCtx { bundle: &bundle, registry: &reg, scenes: &[] };
    let matches = vec![
        make_match("low", 1_000_000, 5),
        make_match("high", 1_000_000, 20),
        make_match("mid", 1_000_000, 10),
    ];
    let decision = PriorityArbiter::new().decide(&ctx, &matches);
    assert_eq!(decision.scene_id.as_deref(), Some("high"));
}

#[test]
fn same_priority_alphabetical_tie_break() {
    let reg = FeatureRegistry::new();
    let bundle = FeatureBundle::new(0);
    let ctx = EvalCtx { bundle: &bundle, registry: &reg, scenes: &[] };
    let matches = vec![make_match("banana", 1_000_000, 10), make_match("apple", 1_000_000, 10)];
    let decision = PriorityArbiter::new().decide(&ctx, &matches);
    assert_eq!(decision.scene_id.as_deref(), Some("apple"));
}

#[test]
fn same_priority_higher_confidence_wins() {
    let reg = FeatureRegistry::new();
    let bundle = FeatureBundle::new(0);
    let ctx = EvalCtx { bundle: &bundle, registry: &reg, scenes: &[] };
    let matches = vec![make_match("apple", 600_000, 10), make_match("banana", 900_000, 10)];
    let decision = PriorityArbiter::new().decide(&ctx, &matches);
    assert_eq!(decision.scene_id.as_deref(), Some("banana"));
    assert_eq!(decision.confidence, 900_000);
    assert_eq!(decision.source, DecisionSource::Rule);
}

#[test]
fn gt_passes_when_feature_greater() {
    let s = scene("loud", vec![cond("audio.voice_ratio", Op::Gt, Value::Number(500_000))], vec![], vec![], 0);
    let mut b = FeatureBundle::new(0);
    b.insert(FeatureKey::new("audio.voice_ratio").unwrap(), FeatureValue::F64(720_000));
    let matches = SimpleRuleMatcher::new().match_scenes(&b, &[s]);
    assert_eq!(matches.len(), 1);
    assert_eq!(matches[0].confidence, 1_000_000);
}

#[test]
fn missing_feature_fails_all() {
    let s = scene("x", vec![cond("audio.voice_ratio", Op::Gt, Value::Number(500_000))], vec![], vec![], 0);
    let b = FeatureBundle::new(0);
    let matches = SimpleRuleMatcher::new().match_scenes(&b, &[s]);
    assert!(matches.is_empty());
}

#[test]
fn any_passes_with_one_match() {
    let s = scene(
        "meeting",
        vec![],
        vec![
            cond("context.app", Op::Eq, Value::String("Zoom".into())),
            cond("context.app", Op::Eq, Value::String("Teams".into())),
        ],
        vec![],
        0,
    );
    let mut b = FeatureBundle::new(0);
    b.insert(FeatureKey::new("context.app").unwrap(), FeatureValue::Category("Teams".into()));
    let matches = SimpleRuleMatcher::new().match_scenes(&b, &[s]);
    assert_eq!(matches.len(), 1);
}

#[test]
fn in_op_matches_list_member() {
    let list = Value::List(vec![
        Value::String("Zoom".into()),
        Value::String("Teams".into()),
        Value::String("Feishu".into()),
    ]);
    let s = scene("x", vec![cond("context.app", Op::In, list)], vec![], vec![], 0);
    let mut b = FeatureBundle::new(0);
    b.insert(FeatureKey::new("context.app").unwrap(), FeatureValue::Category("Feishu".into()));
    assert_eq!(SimpleRuleMatcher::new().match_scenes(&b, &[s]).len(), 1);
}

#[test]
fn none_condition_that_fires_rejects() {
    let s = scene(
        "quiet",
        vec![cond("audio.voice_ratio", Op::Lt, Value::Number(200_000))],
        vec![],
        vec![cond("context.app", Op::Eq, Value::String("Zoom".into()))],
        0,
    );
    let mut b = FeatureBundle::new(0);
    b.insert(FeatureKey::new("audio.voice_ratio").unwrap(), FeatureValue::F64(100_000));
    assert_eq!(SimpleRuleMatcher::new().match_scenes(&b, &[s]).len(), 1);
    let s2 = scene(
        "quiet",
        vec![cond("audio.voice_ratio", Op::Lt, Value::Number(200_000))],
        vec![],
        vec![cond("context.app", Op::Eq, Value::String("Zoom".into()))],
        0,
    );
    b.insert(FeatureKey::new("context.app").unwrap(), FeatureValue::Category("Zoom".into()));
    assert!(SimpleRuleMatcher::new().match_scenes(&b, &[s2]).is_empty());
}

#[test]
fn match_evidence_describes_each_condition() {
    let s = scene("loud", vec![cond("audio.voice_ratio", Op::Gte, Value::Number(500_000))], vec![], vec![], 3);
    let mut b = FeatureBundle::new(0);
    b.insert(FeatureKey::new("audio.voice_ratio").unwrap(), FeatureValue::F64(720_000));
    let m = SimpleRuleMatcher::new().match_one(&s, &b);
    assert_eq!(m.scene_id, "loud");
    assert_eq!(m.priority, 3);
    assert_eq!(m.evidence.len(), 1);
    assert!(m.evidence[0].description.contains("audio.voice_ratio"));
}

fn decision(conf: i64, known: bool) -> SceneDecision {
    SceneDecision {
        scene_id: if known { Some("x".into()) } else { None },
        confidence: conf,
        description: None,
        source: DecisionSource::Rule,
        rationale: vec![],
    }
}

#[test]
fn accept_above_threshold() {
    let g = ThresholdGate::default();
    let b = FeatureBundle::new(0);
    let r = FeatureRegistry::new();
    let c = EvalCtx { bundle: &b, registry: &r, scenes: &[] };
    assert_eq!(g.verdict(&decision(900_000, true), &c), GateVerdict::Accept);
}

#[test]
fn reject_unknown() {
    let g = ThresholdGate::default();
    let b = FeatureBundle::new(0);
    let r = FeatureRegistry::new();
    let c = EvalCtx { bundle: &b, registry: &r, scenes: &[] };
    assert_eq!(g.verdict(&decision(0, false), &c), GateVerdict::Reject);
}

#[test]
fn escalate_in_mid_range() {
    let g = ThresholdGate::default();
    let b = FeatureBundle::new(0);
    let r = FeatureRegistry::new();
    let c = EvalCtx { bundle: &b, registry: &r, scenes: &[] };
    let v = g.verdict(&decision(450_000, true), &c);
    assert!(matches!(v, GateVerdict::Escalate { .. }));
}

#[test]
fn gate_boundaries() {
    let g = ThresholdGate::default();
    assert_eq!(g.accept, 700_000);
    assert_eq!(g.reject_below, 50_000);
    assert_eq!(g.classify(&decision(700_000, true)), GateVerdict::Accept);
    assert_eq!(g.classify(&decision(50_000, true)), GateVerdict::Reject);
    match g.classify(&decision(450_000, true)) {
        GateVerdict::Escalate { reason } => assert!(reason.contains("0.45")),
        other => panic!("unexpected {other:?}"),
    }
}

#[test]
fn value_helpers() {
    assert_eq!(Value::Number(1_500_000).as_f64(), Some(1_500_000));
    assert_eq!(Value::Bool(true).as_bool(), Some(true));
    assert_eq!(Value::String("x".into()).as_str(), Some("x"));
    assert_eq!(Value::List(vec![]).as_list().map(|l| l.len()), Some(0));
}

#[test]
fn unknown_decision() {
    let d = SceneDecision::unknown();
    assert!(!d.is_known());
    assert_eq!(d.source, DecisionSource::Fallback);
}

#[test]
fn match_rules_helpers() {
    let empty = MatchRules { all: vec![], any: vec![], none: vec![] };
    assert!(empty.is_empty());
    let rules = MatchRules {
        all: vec![cond("a.b", Op::Gt, Value::Number(1))],
        any: vec![cond("c.d", Op::Eq, Value::Bool(true))],
        none: vec![cond("e.f", Op::Ne, Value::String("x".into()))],
    };
    assert!(!rules.is_empty());
    let names: Vec<&str> = rules.all_conditions().iter().map(|c| c.feature.as_str()).collect();
    assert_eq!(names, vec!["a.b", "c.d", "e.f"]);
}

#[test]
fn escalation_reason_rounds_ties_to_even() {
    let g = ThresholdGate::default();
    let reason = |c: i64| match g.classify(&decision(c, true)) {
        GateVerdict::Escalate { reason } => reason,
        other => panic!("unexpected {other:?}"),
    };
    assert_eq!(reason(125_000), "confidence 0.12 in (0.05, 0.70) — needs reflection");
    assert_eq!(reason(375_000), "confidence 0.38 in (0.05, 0.70) — needs reflection");
    assert_eq!(reason(125_001), "confidence 0.13 in (0.05, 0.70) — needs reflection");
    assert_eq!(reason(454_999), "confidence 0.45 in (0.05, 0.70) — needs reflection");
    assert_eq!(reason(455_000), "confidence 0.46 in (0.05, 0.70) — needs reflection");
}
