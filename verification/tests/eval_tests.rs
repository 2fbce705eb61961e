use perceptkit::cli::eval::{evaluate_rows, ClassMetrics, EvalTally};
use perceptkit::dsl::schema::{Condition, Describe, MatchRules, Op, Value};
use perceptkit::engine::SceneEngine;
use perceptkit::feature::{FeatureBundle, FeatureKey, FeatureValue};
use perceptkit::scene::Scene;
use perceptkit::cli::synth::Prng;

#[test]
fn class_metrics_f1() {
    let m = ClassMetrics { tp: 8, fp: 2, fn_: 2, support: 10 };
    assert_eq!(m.precision(), 800_000);
    assert_eq!(m.recall(), 800_000);
    assert_eq!(m.f1(), 800_000);
}

#[test]
fn class_metrics_zero_division_safe() {
    let m = ClassMetrics::default();
    assert_eq!(m.precision(), 0);
    assert_eq!(m.recall(), 0);
    assert_eq!(m.f1(), 0);
}

#[test]
fn f1_is_harmonic_mean() {
    let m = ClassMetrics { tp: 1, fp: 1, fn_: 0, support: 1 };
    assert_eq!(m.precision(), 500_000);
    assert_eq!(m.recall(), 1_000_000);
    assert_eq!(m.f1(), 666_666);
}

#[test]
fn tally_counts_hits_misses_and_unknowns() {
    let mut t = EvalTally::new();
    t.record("meeting", Some("meeting"));
    t.record("meeting", Some("office"));
    t.record("office", None);
    t.record("office", Some("office"));
    let r = t.report();
    assert_eq!(r.n, 4);
    assert_eq!(r.unknown_count, 1);
    assert_eq!(r.top1_accuracy, 500_000);
    let names: Vec<&str> = r.per_class.iter().map(|(n, _)| n.as_str()).collect();
    assert_eq!(names, vec!["meeting", "office"]);
    assert_eq!(r.per_class[0].1, ClassMetrics { tp: 1, fp: 0, fn_: 1, support: 2 });
    assert_eq!(r.per_class[1].1, ClassMetrics { tp: 1, fp: 1, fn_: 0, support: 2 });
    // f1: meeting 2/3, office 2/3
    assert_eq!(r.macro_f1, 666_666);
    assert!(!r.passes_v01_gate());
    let supports: usize = r.per_class.iter().map(|(_, m)| m.support).sum();
    assert_eq!(supports, r.n);
}

#[test]
fn predicted_only_classes_do_not_count_in_macro_f1() {
    let mut t = EvalTally::new();
    t.record("a", Some("a"));
    t.record("a", Some("ghost"));
    let r = t.report();
    assert_eq!(r.per_class.len(), 2);
    assert_eq!(r.per_class[1].1.support, 0);
    assert_eq!(r.per_class[1].1.fp, 1);
    // only "a" is labelled: p = 1, r = 1/2, f1 = 2/3
    assert_eq!(r.macro_f1, 666_666);
}

#[test]
fn perfect_run_passes_gate() {
    let mut t = EvalTally::new();
    for _ in 0..5 {
        t.record("x", Some("x"));
        t.record("y", Some("y"));
    }
    let r = t.report();
    assert_eq!(r.top1_accuracy, 1_000_000);
    assert_eq!(r.macro_f1, 1_000_000);
    assert!(r.passes_v01_gate());
    let empty = EvalTally::new().report();
    assert_eq!((empty.n, empty.top1_accuracy, empty.macro_f1), (0, 0, 0));
}

#[test]
fn prng_is_deterministic_xorshift_star() {
    let mut a = Prng::new(42);
    let mut b = Prng::new(42);
    let xs: Vec<u32> = (0..5).map(|_| a.next_bits()).collect();
    let ys: Vec<u32> = (0..5).map(|_| b.next_bits()).collect();
    assert_eq!(xs, ys);
    // the same computation, written out
    let mut s: u64 = 42u64.wrapping_mul(6364136223846793005).wrapping_add(1442695040888963407);
    s ^= s >> 12;
    s ^= s << 25;
    s ^= s >> 27;
    let expected = (s.wrapping_mul(0x2545_F491_4F6C_DD1D) >> 32) as u32;
    assert_eq!(xs[0], expected);
    let mut c = Prng::new(43);
    assert_ne!(c.next_bits(), xs[0]);
}

fn voice_ratio_row(label: &str, v: i64) -> (String, FeatureBundle) {
    let mut b = FeatureBundle::new(0);
    b.insert(FeatureKey::new("audio.voice_ratio").unwrap(), FeatureValue::F64(v));
    (label.to_string(), b)
}

#[test]
fn evaluate_rows_runs_the_engine_and_tallies() {
    let meeting = Scene {
        id: "meeting".into(),
        version: 1,
        describe: Describe { template: "meeting".into(), fields: vec![] },
        match_rules: MatchRules {
            all: vec![Condition { feature: "audio.voice_ratio".into(), op: Op::Gt, value: Value::Number(500_000) }],
            any: vec![],
            none: vec![],
        },
        priority: 10,
    };
    let engine = SceneEngine::new(vec![meeting]);
    let rows = vec![
        voice_ratio_row("meeting", 800_000),
        voice_ratio_row("meeting", 200_000),
        voice_ratio_row("silence", 900_000),
        voice_ratio_row("silence", 100_000),
    ];
    let r = evaluate_rows(&engine, &rows);
    assert_eq!(r.n, 4);
    assert_eq!(r.unknown_count, 2);
    assert_eq!(r.top1_accuracy, 250_000);
    assert_eq!(r.per_class.len(), 2);
    assert_eq!(r.per_class[0].0, "meeting");
    assert_eq!(r.per_class[0].1, ClassMetrics { tp: 1, fp: 1, fn_: 0, support: 2 });
    assert_eq!(r.per_class[1].0, "silence");
    assert_eq!(r.per_class[1].1, ClassMetrics { tp: 0, fp: 0, fn_: 1, support: 2 });
    assert_eq!(r.macro_f1, 333_333);
    assert!(!r.passes_v01_gate());
}
