use perceptkit::dsl::loader::{collect_scenes, validate_features};
use perceptkit::dsl::schema::{Condition, Describe, MatchRules, Op, Value};
use perceptkit::error::Error;
use perceptkit::feature::{FeatureDescriptor, FeatureKey, FeatureKind, TimeWindow};
use perceptkit::registry::FeatureRegistry;
use perceptkit::scene::Scene;

fn descriptor(k: &str) -> FeatureDescriptor {
    FeatureDescriptor {
        key: FeatureKey::new(k).unwrap(),
        kind: FeatureKind::F64 { min: Some(0), max: Some(1_000_000) },
        unit: None,
        window: TimeWindow::Instant,
        source: "test".into(),
        version: 1,
    }
}

fn scene(id: &str, template: &str, all: Vec<Condition>, priority: i32) -> Scene {
    Scene {
        id: id.into(),
        version: 1,
        describe: Describe { template: template.into(), fields: vec![] },
        match_rules: MatchRules { all, any: vec![], none: vec![] },
        priority,
    }
}

#[test]
fn load_dir_sorts_by_priority() {
    let items = vec![Ok(scene("a", "a", vec![], 5)), Ok(scene("b", "b", vec![], 20))];
    let scenes = collect_scenes(items, &FeatureRegistry::new()).unwrap();
    assert_eq!(scenes[0].id, "b");
    assert_eq!(scenes[1].id, "a");
}

#[test]
fn duplicate_scene_id_errors() {
    let items = vec![Ok(scene("dup", "x", vec![], 0)), Ok(scene("dup", "y", vec![], 0))];
    let err = collect_scenes(items, &FeatureRegistry::new()).unwrap_err();
    assert!(matches!(err, Error::DuplicateScene(ref id) if id == "dup"));
}

#[test]
fn unknown_feature_gives_did_you_mean() {
    let cond = Condition { feature: "audio.voice_ratios".into(), op: Op::Gt, value: Value::Number(400_000) };
    let items = vec![Ok(scene("meeting", "meeting", vec![cond], 0))];
    let mut reg = FeatureRegistry::new();
    reg.register(descriptor("audio.voice_ratio"));
    let err = collect_scenes(items, &reg).unwrap_err();
    if let Error::UnknownFeature { key, did_you_mean, .. } = err {
        assert_eq!(key, "audio.voice_ratios");
        assert_eq!(did_you_mean, Some("audio.voice_ratio".to_string()));
    } else {
        panic!("expected UnknownFeature");
    }
}

#[test]
fn equal_priority_sorts_by_id() {
    let items = vec![Ok(scene("zeta", "z", vec![], 7)), Ok(scene("alpha", "a", vec![], 7)), Ok(scene("mid", "m", vec![], 9))];
    let scenes = collect_scenes(items, &FeatureRegistry::new()).unwrap();
    let ids: Vec<&str> = scenes.iter().map(|s| s.id.as_str()).collect();
    assert_eq!(ids, vec!["mid", "alpha", "zeta"]);
}

#[test]
fn parse_error_is_passed_through() {
    let items = vec![
        Ok(scene("a", "a", vec![], 0)),
        Err(Error::YamlParse { path: "b.yaml".into(), message: "bad".into() }),
    ];
    let err = collect_scenes(items, &FeatureRegistry::new()).unwrap_err();
    assert!(matches!(err, Error::YamlParse { ref path, .. } if path == "b.yaml"));
}

#[test]
fn empty_registry_skips_validation() {
    let cond = Condition { feature: "no.such.key".into(), op: Op::Gt, value: Value::Number(0) };
    let items = vec![Ok(scene("s", "s", vec![cond], 0))];
    assert_eq!(collect_scenes(items, &FeatureRegistry::new()).unwrap().len(), 1);
}

#[test]
fn malformed_feature_key_is_invalid_scene() {
    let mut reg = FeatureRegistry::new();
    reg.register(descriptor("audio.voice_ratio"));
    let cond = Condition { feature: "bad key".into(), op: Op::Gt, value: Value::Number(0) };
    let s = scene("s", "s", vec![cond], 0);
    match validate_features(&s, &reg) {
        Err(Error::InvalidScene { scene_id, message }) => {
            assert_eq!(scene_id, "s");
            assert_eq!(message, "invalid feature key syntax: 'bad key'");
        },
        other => panic!("unexpected {other:?}"),
    }
}
