use perceptkit::audio::{
    audio_descriptors, count_transitions, estimate_speakers, speaker_descriptors, voice_activity_descriptors,
    EnergyExtractor,
};
use perceptkit::feature::FeatureKind;
use std::collections::HashSet;

#[test]
fn default_descriptors_nonempty() {
    let d = audio_descriptors();
    assert!(d.len() >= 7);
}

#[test]
fn all_descriptors_have_unique_keys() {
    let d = audio_descriptors();
    let keys: HashSet<_> = d.iter().map(|x| x.key.as_str().to_string()).collect();
    assert_eq!(keys.len(), d.len());
}

#[test]
fn descriptors_include_transitions_metric() {
    let d = speaker_descriptors();
    assert!(d.iter().any(|x| x.key.as_str() == "audio.activity_transitions_per_sec"));
}

#[test]
fn energy_extractor_identity() {
    let e = EnergyExtractor::new();
    assert_eq!(e.name(), "perceptkit-audio::EnergyExtractor");
    let d = e.descriptors();
    assert_eq!(d.len(), 5);
    assert_eq!(d[1].key.as_str(), "audio.rms_db");
    assert!(matches!(d[1].kind, FeatureKind::F64 { min: Some(-120_000_000), max: Some(0) }));
    assert_eq!(d[1].unit.as_deref(), Some("dBFS"));
    assert_eq!(d[0].source, "perceptkit-audio@0.1.0");
}

#[test]
fn voice_activity_flag_is_boolean() {
    let d = voice_activity_descriptors();
    assert!(matches!(d[0].kind, FeatureKind::Bool));
    assert!(d[0].unit.is_none());
    assert_eq!(audio_descriptors().len(), 13);
}

#[test]
fn transitions_counted_from_inactive() {
    assert_eq!(count_transitions(&vec![]), 0);
    assert_eq!(count_transitions(&vec![false, false]), 0);
    assert_eq!(count_transitions(&vec![true, true, false, true]), 3);
}

#[test]
fn speaker_estimate_thresholds() {
    // one sub-window: always one speaker
    assert_eq!(estimate_speakers(1, 9, 16000, 16000, 2_000_000, 5_000_000), 1);
    // 6 changes in 1 s: 6/s >= 5/s
    assert_eq!(estimate_speakers(20, 6, 16000, 16000, 2_000_000, 5_000_000), 3);
    // exactly 2 changes per second
    assert_eq!(estimate_speakers(20, 4, 32000, 16000, 2_000_000, 5_000_000), 2);
    assert_eq!(estimate_speakers(20, 3, 32000, 16000, 2_000_000, 5_000_000), 1);
    // no sample rate: rate is zero
    assert_eq!(estimate_speakers(20, 30, 16000, 0, 2_000_000, 5_000_000), 1);
}
