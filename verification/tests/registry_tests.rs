use perceptkit::error::Error;
use perceptkit::feature::{FeatureDescriptor, FeatureKey, FeatureKind, TimeWindow};
use perceptkit::registry::FeatureRegistry;

fn sample_descriptor(key: &str) -> FeatureDescriptor {
    FeatureDescriptor {
        key: FeatureKey::new(key).unwrap(),
        kind: FeatureKind::F64 { min: Some(0), max: Some(1_000_000) },
        unit: Some("ratio_0_1".into()),
        window: TimeWindow::Instant,
        source: "test@0.1.0".into(),
        version: 1,
    }
}

#[test]
fn register_and_get() {
    let mut reg = FeatureRegistry::new();
    reg.register(sample_descriptor("audio.voice_ratio"));
    let k = FeatureKey::new("audio.voice_ratio").unwrap();
    assert!(reg.get(&k).is_some());
    assert_eq!(reg.len(), 1);
}

#[test]
fn closest_key_finds_typo() {
    let mut reg = FeatureRegistry::new();
    reg.register(sample_descriptor("audio.voice_ratio"));
    reg.register(sample_descriptor("audio.speaker_count"));
    assert_eq!(reg.closest_key("audio.voice_ratios"), Some("audio.voice_ratio".to_string()));
    assert_eq!(reg.closest_key("audio.voice_ratio_x"), Some("audio.voice_ratio".to_string()));
}

#[test]
fn closest_key_returns_none_for_very_different() {
    let mut reg = FeatureRegistry::new();
    reg.register(sample_descriptor("audio.voice_ratio"));
    assert_eq!(reg.closest_key("totally.unrelated.key_name"), None);
}

#[test]
fn resolve_or_error_gives_did_you_mean() {
    let mut reg = FeatureRegistry::new();
    reg.register(sample_descriptor("audio.voice_ratio"));
    let k = FeatureKey::new("audio.voice_ratios").unwrap();
    let err = reg.resolve_or_error(&k, "online_meeting").unwrap_err();
    match err {
        Error::UnknownFeature { key, scene_id, did_you_mean } => {
            assert_eq!(key, "audio.voice_ratios");
            assert_eq!(scene_id, "online_meeting");
            assert_eq!(did_you_mean, Some("audio.voice_ratio".to_string()));
        },
        _ => panic!("wrong error variant"),
    }
}

#[test]
fn closest_key_distance_limit_is_three_edits() {
    let mut reg = FeatureRegistry::new();
    reg.register(sample_descriptor("abcdef"));
    assert_eq!(reg.closest_key("abcxyz"), Some("abcdef".to_string()));
    assert_eq!(reg.closest_key("abwxyz"), None);
    assert_eq!(FeatureRegistry::new().closest_key("abcdef"), None);
}

#[test]
fn closest_key_tie_prefers_earliest_registered() {
    let mut reg = FeatureRegistry::new();
    reg.register(sample_descriptor("ab.cd"));
    reg.register(sample_descriptor("ab.ce"));
    assert_eq!(reg.closest_key("ab.cx"), Some("ab.cd".to_string()));
}

#[test]
fn register_replaces_same_key() {
    let mut reg = FeatureRegistry::new();
    assert!(reg.register(sample_descriptor("a.b")).is_none());
    assert!(reg.register(sample_descriptor("a.b")).is_some());
    assert_eq!(reg.len(), 1);
    assert!(!reg.is_empty());
    assert_eq!(reg.iter().len(), 1);
    let k = FeatureKey::new("a.b").unwrap();
    assert!(reg.resolve_or_error(&k, "s").is_ok());
}
