use perceptkit::transition::{FlappingFsm, FsmConfig, TransitionOutput};

fn fsm() -> FlappingFsm {
    FlappingFsm::default_config()
}

#[test]
fn initial_with_high_conf_transitions() {
    let mut f = fsm();
    let out = f.step(Some("office"), 800_000, 0);
    assert!(matches!(
        out,
        TransitionOutput::Transition { from: None, to }
        if to == "office"
    ));
}

#[test]
fn initial_with_low_conf_holds() {
    let mut f = fsm();
    let out = f.step(Some("office"), 600_000, 0);
    assert_eq!(out, TransitionOutput::Hold { scene: None });
}

#[test]
fn stable_ignores_mild_noise() {
    let mut f = fsm();
    f.step(Some("office"), 800_000, 0);
    let out = f.step(Some("office"), 650_000, 500_000);
    assert_eq!(out, TransitionOutput::Hold { scene: Some("office".into()) });
}

#[test]
fn stable_enters_uncertain_on_collapse() {
    let mut f = fsm();
    f.step(Some("office"), 800_000, 0);
    let out = f.step(Some("office"), 300_000, 1_000_000);
    assert!(matches!(out, TransitionOutput::Uncertain { .. }));
    assert!(f.is_uncertain());
}

#[test]
fn stable_respects_dwell_before_transition() {
    let mut f = fsm();
    f.step(Some("office"), 800_000, 0);
    let out = f.step(Some("meeting"), 750_000, 1_000_000);
    assert!(matches!(out, TransitionOutput::Hold { .. }));
    assert!(matches!(f.step(Some("meeting"), 750_000, 2_000_000), TransitionOutput::Hold { .. }));
    let out = f.step(Some("meeting"), 750_000, 4_500_000);
    assert!(matches!(
        out,
        TransitionOutput::Transition { from: Some(_), to } if to == "meeting"
    ));
}

#[test]
fn hot_switch_bypasses_dwell() {
    let mut f = fsm();
    f.step(Some("office"), 800_000, 0);
    let out = f.step(Some("driving"), 900_000, 200_000);
    assert!(matches!(
        out,
        TransitionOutput::Transition { from: Some(_), to } if to == "driving"
    ));
}

#[test]
fn returning_to_current_cancels_pending() {
    let mut f = fsm();
    f.step(Some("office"), 800_000, 0);
    f.step(Some("meeting"), 750_000, 1_000_000);
    let out = f.step(Some("office"), 750_000, 2_000_000);
    assert_eq!(out, TransitionOutput::Hold { scene: Some("office".into()) });
    f.step(Some("meeting"), 750_000, 3_000_000);
    assert!(matches!(f.step(Some("meeting"), 750_000, 4_000_000), TransitionOutput::Hold { .. }));
}

#[test]
fn proposed_drops_conf_reverts_to_current() {
    let mut f = fsm();
    f.step(Some("office"), 800_000, 0);
    f.step(Some("meeting"), 750_000, 1_000_000);
    let out = f.step(Some("meeting"), 400_000, 2_000_000);
    assert_eq!(out, TransitionOutput::Hold { scene: Some("office".into()) });
}

#[test]
fn no_flap_under_mild_noise() {
    for seed in 0u64..32 {
        let mut rng_state = seed;
        let rand = |s: &mut u64| {
            *s = s.wrapping_mul(6364136223846793005).wrapping_add(1442695040888963407);
            (*s >> 32) as u32 as f64 / u32::MAX as f64
        };
        let mut f = fsm();
        f.step(Some("A"), 800_000, 0);
        let mut transitions = 0;
        for i in 0..600i64 {
            let t = 100_000 * i + 100_000;
            let noise = (rand(&mut rng_state) - 0.5) * 0.10;
            let conf = (0.65 + noise).clamp(0.0, 1.0);
            let scene = if rand(&mut rng_state) < 0.3 { "B" } else { "A" };
            let out = f.step(Some(scene), (conf * 1_000_000.0) as i64, t);
            if let TransitionOutput::Transition { .. } = out {
                transitions += 1;
            }
        }
        assert!(transitions <= 1, "expected at most one transition, got {transitions}");
    }
}

#[test]
fn default_config_thresholds() {
    let c = FsmConfig::default();
    assert_eq!(c.enter_hi, 700_000);
    assert_eq!(c.exit_lo, 550_000);
    assert_eq!(c.dwell, 3_000_000);
    assert_eq!(c.hot_switch_floor, 850_000);
}

#[test]
fn dwell_exactly_reached_commits() {
    let mut f = fsm();
    f.step(Some("office"), 800_000, 0);
    assert!(matches!(f.step(Some("meeting"), 750_000, 1_000_000), TransitionOutput::Hold { .. }));
    let out = f.step(Some("meeting"), 750_000, 4_000_000);
    assert!(matches!(out, TransitionOutput::Transition { from: Some(ref a), ref to } if a == "office" && to == "meeting"));
    assert_eq!(f.current_scene(), Some("meeting"));
}

#[test]
fn below_enter_never_leaves_initial() {
    let mut f = fsm();
    for i in 0..50i64 {
        let out = f.step(Some("x"), 699_999, i * 1_000_000);
        assert_eq!(out, TransitionOutput::Hold { scene: None });
    }
    assert_eq!(f.current_scene(), None);
}

#[test]
fn uncertain_recovers_on_confident_reading() {
    let mut f = fsm();
    f.step(Some("office"), 800_000, 0);
    f.step(None, 0, 1_000_000);
    assert!(f.is_uncertain());
    let out = f.step(Some("driving"), 800_000, 2_000_000);
    assert!(matches!(out, TransitionOutput::Transition { to, .. } if to == "driving"));
    assert!(!f.is_uncertain());
}
