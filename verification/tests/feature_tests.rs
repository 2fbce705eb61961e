use perceptkit::error::Error;
use perceptkit::feature::{FeatureBundle, FeatureKey, FeatureValue, TimeWindow};

#[test]
fn key_accepts_valid() {
    assert!(FeatureKey::new("audio.voice_ratio").is_ok());
    assert!(FeatureKey::new("a").is_ok());
    assert!(FeatureKey::new("a.b.c.d").is_ok());
    assert!(FeatureKey::new("audio_v2.speaker_count").is_ok());
}

#[test]
fn key_rejects_invalid() {
    assert!(FeatureKey::new("").is_err());
    assert!(FeatureKey::new("audio..voice").is_err());
    assert!(FeatureKey::new(".leading").is_err());
    assert!(FeatureKey::new("trailing.").is_err());
    assert!(FeatureKey::new("has space").is_err());
    assert!(FeatureKey::new("has-dash").is_err());
    assert!(FeatureKey::new("has/slash").is_err());
}

#[test]
fn bundle_insert_and_get() {
    let mut b = FeatureBundle::new(0);
    let k = FeatureKey::new("audio.voice_ratio").unwrap();
    b.insert(k.clone(), FeatureValue::F64(720_000));
    assert_eq!(b.get(&k).and_then(FeatureValue::as_f64), Some(720_000));
    assert_eq!(b.len(), 1);
}

#[test]
fn value_type_introspection() {
    assert_eq!(FeatureValue::F64(1_000_000).kind_name(), "f64");
    assert_eq!(FeatureValue::Bool(true).kind_name(), "bool");
    assert_eq!(FeatureValue::Category("x".into()).kind_name(), "category");
    assert_eq!(FeatureValue::Vector(vec![]).kind_name(), "vector");
}

#[test]
fn invalid_key_error_carries_the_text() {
    match FeatureKey::new("has space") {
        Err(Error::InvalidFeatureKey(t)) => assert_eq!(t, "has space"),
        other => panic!("unexpected {other:?}"),
    }
    assert_eq!(FeatureKey::new("a.b").unwrap().as_str(), "a.b");
}

#[test]
fn insert_replaces_and_keeps_one_entry() {
    let mut b = FeatureBundle::new(5);
    let k = FeatureKey::new("context.app").unwrap();
    assert!(b.insert(k.clone(), FeatureValue::Category("Zoom".into())).is_none());
    let old = b.insert(k.clone(), FeatureValue::Category("Teams".into()));
    assert_eq!(old.and_then(|v| v.as_category().map(|s| s.to_string())), Some("Zoom".to_string()));
    assert_eq!(b.len(), 1);
    assert_eq!(b.get_str("context.app").and_then(|v| v.as_category()), Some("Teams"));
    assert!(b.get_str("not a key").is_none());
    assert!(b.get_str("context.other").is_none());
    assert!(!b.is_empty());
    assert_eq!(b.timestamp, 5);
}

#[test]
fn value_accessors_pick_their_variant() {
    assert_eq!(FeatureValue::Bool(true).as_bool(), Some(true));
    assert_eq!(FeatureValue::F64(3).as_bool(), None);
    assert_eq!(FeatureValue::Bool(false).as_f64(), None);
    assert_eq!(FeatureValue::F64(3).as_category(), None);
}

#[test]
fn window_durations() {
    assert_eq!(TimeWindow::Instant.duration(), Some(0));
    assert_eq!(TimeWindow::Sliding { ms: 1000 }.duration(), Some(1000));
    assert_eq!(TimeWindow::Ema { alpha: 500_000 }.duration(), None);
}

#[test]
fn key_converts_to_and_from_string() {
    let k = FeatureKey::new("audio.voice_ratio").unwrap();
    let s: String = String::from(k.clone());
    assert_eq!(s, "audio.voice_ratio");
    let back = FeatureKey::try_from(s).unwrap();
    assert_eq!(back.as_str(), k.as_str());
}

#[test]
fn key_try_from_rejects_invalid() {
    assert!(matches!(
        FeatureKey::try_from("has space".to_string()),
        Err(Error::InvalidFeatureKey(_))
    ));
    assert!(matches!(FeatureKey::try_from(String::new()), Err(Error::InvalidFeatureKey(_))));
}
