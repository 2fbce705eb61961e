use perceptkit::feature::{FeatureBundle, FeatureKey, FeatureValue};
use perceptkit::reflector::local::{
    chat_prompt, check_prompt_fits, parse_reflection, read_json_object, sorted_unique, user_prompt, LocalConfig,
    DEFAULT_SYSTEM_PROMPT,
};
use perceptkit::reflector::local::{reflection_from_fields, reflection_from_parse, ReflectionFields};
use perceptkit::reflector::mock::MockReflector;
use perceptkit::reflector::noop::NoopReflector;
use perceptkit::reflector::{PendingCase, PromptHash, ReflectError, Reflection, ReflectionBudget};
use perceptkit::scene::SceneDecision;

fn case() -> PendingCase {
    PendingCase {
        id: "c1".into(),
        timestamp: 0,
        features: vec![],
        reason: "test".into(),
        failed_decision: SceneDecision::unknown(),
    }
}

#[test]
fn parse_map_reflection() {
    let raw = r#"{"kind":"map","scene_id":"office_quiet","rationale":"silent"}"#;
    let r = parse_reflection(raw).unwrap();
    assert!(matches!(r, Reflection::MapsTo { .. }));
    if let Reflection::MapsTo { scene_id, .. } = r {
        assert_eq!(scene_id, "office_quiet");
    }
}

#[test]
fn parse_propose_reflection() {
    let raw = r#"preamble... {"kind":"propose","yaml":"id: new","reason":"novel features"} trailing"#;
    let r = parse_reflection(raw).unwrap();
    assert!(matches!(r, Reflection::Propose { .. }));
}

#[test]
fn parse_unknown_reflection() {
    let raw = r#"{"kind":"unknown","summary":"cannot classify","top_features":["a","b"]}"#;
    let r = parse_reflection(raw).unwrap();
    if let Reflection::Unknown { top_features, summary } = r {
        assert_eq!(top_features.len(), 2);
        assert_eq!(summary, "cannot classify");
    } else {
        panic!("expected Unknown");
    }
}

#[test]
fn parse_rejects_no_json() {
    assert!(parse_reflection("just text no json").is_err());
}

#[test]
fn parse_rejects_unknown_kind() {
    assert!(parse_reflection(r#"{"kind":"xxx"}"#).is_err());
}

#[test]
fn default_config_values() {
    let c = LocalConfig::default();
    assert_eq!(c.n_ctx, 2048);
    assert_eq!(c.max_new_tokens, 256);
}

#[test]
fn pops_in_order() {
    let mut m = MockReflector::new(vec![
        Reflection::MapsTo { scene_id: "a".into(), rationale: "r1".into() },
        Reflection::unknown("s"),
    ]);
    assert_eq!(m.remaining(), 2);
    let out = m.reflect_case(&case()).unwrap();
    assert!(matches!(out, Reflection::MapsTo { .. }));
    assert_eq!(m.remaining(), 1);
}

#[test]
fn exhausted_errors() {
    let mut m = MockReflector::new(vec![Reflection::unknown("s")]);
    let _ = m.reflect_case(&case()).unwrap();
    let err = m.reflect_case(&case()).unwrap_err();
    assert!(matches!(err, ReflectError::Backend(ref msg) if msg == "exhausted"));
}

#[test]
fn noop_returns_unknown() {
    let r = NoopReflector::new();
    let refl = r.reflect_case(&case()).unwrap();
    assert!(matches!(refl, Reflection::Unknown { .. }));
}

#[test]
fn noop_has_stable_fingerprint() {
    let r = NoopReflector::new();
    assert_eq!(r.fingerprint(), PromptHash("noop@v1".into()));
    assert_eq!(r.name(), "noop");
}

#[test]
fn parse_error_messages() {
    match parse_reflection("no braces here") {
        Err(ReflectError::InvalidProposal(m)) => assert_eq!(m, "no JSON object in: \"no braces here\""),
        other => panic!("unexpected {other:?}"),
    }
    match parse_reflection("x {\"kind\":\"map\"") {
        Err(ReflectError::InvalidProposal(m)) => assert!(m.starts_with("unterminated JSON in: ")),
        other => panic!("unexpected {other:?}"),
    }
    match parse_reflection(r#"{"kind":"map"}"#) {
        Err(ReflectError::InvalidProposal(m)) => assert_eq!(m, "missing scene_id"),
        other => panic!("unexpected {other:?}"),
    }
    match parse_reflection(r#"{"kind":"propose"}"#) {
        Err(ReflectError::InvalidProposal(m)) => assert_eq!(m, "missing yaml"),
        other => panic!("unexpected {other:?}"),
    }
    match parse_reflection(r#"{"kind":"xxx"}"#) {
        Err(ReflectError::InvalidProposal(m)) => assert_eq!(m, "unknown kind 'xxx'"),
        other => panic!("unexpected {other:?}"),
    }
    match parse_reflection(r#"{"scene_id":"a"}"#) {
        Err(ReflectError::InvalidProposal(m)) => assert_eq!(m, "no 'kind' field in \"{\\\"scene_id\\\":\\\"a\\\"}\""),
        other => panic!("unexpected {other:?}"),
    }
    match parse_reflection("{oops}") {
        Err(ReflectError::InvalidProposal(m)) => assert!(m.starts_with("JSON parse: ") && m.ends_with(" in \"{oops}\"")),
        other => panic!("unexpected {other:?}"),
    }
}

#[test]
fn parse_defaults_and_nested_object() {
    match parse_reflection(r#"ok {"kind":"map","scene_id":"s","extra":{"a":1}} and {"kind":"x"}"#).unwrap() {
        Reflection::MapsTo { scene_id, rationale } => {
            assert_eq!(scene_id, "s");
            assert_eq!(rationale, "(no rationale)");
        },
        other => panic!("unexpected {other:?}"),
    }
    match read_json_object(r#"{"kind":"propose","yaml":"id: n"}"#).unwrap() {
        Reflection::Propose { yaml, examples } => {
            assert_eq!(yaml, "id: n");
            assert_eq!(examples, vec!["(no reason)".to_string()]);
        },
        other => panic!("unexpected {other:?}"),
    }
    match read_json_object(r#"{"kind":"unknown","top_features":["a",3,"b"]}"#).unwrap() {
        Reflection::Unknown { summary, top_features } => {
            assert_eq!(summary, "(no summary)");
            assert_eq!(top_features, vec!["a".to_string(), "b".to_string()]);
        },
        other => panic!("unexpected {other:?}"),
    }
}

#[test]
fn known_scenes_sorted_and_deduplicated() {
    let s = sorted_unique(vec!["zoom".into(), "alpha".into(), "zoom".into(), "beta".into()]);
    assert_eq!(s, vec!["alpha".to_string(), "beta".to_string(), "zoom".to_string()]);
    assert!(sorted_unique(vec![]).is_empty());
}

#[test]
fn user_prompt_lists_scenes_features_and_reason() {
    let mut b = FeatureBundle::new(0);
    b.insert(FeatureKey::new("audio.voice_ratio").unwrap(), FeatureValue::F64(720_000));
    b.insert(FeatureKey::new("context.app").unwrap(), FeatureValue::Category("Zoom".into()));
    b.insert(FeatureKey::new("audio.active").unwrap(), FeatureValue::Bool(true));
    let case = PendingCase::from_bundle("c".into(), &b, "low conf".into(), SceneDecision::unknown());
    let p = user_prompt(&vec!["meeting".to_string(), "office".to_string()], &case);
    assert_eq!(
        p,
        "Known scenes: meeting, office\nFeatures:\n  - audio.voice_ratio: 0.72\n  - context.app: \"Zoom\"\n  - audio.active: true\nEscalation reason: low conf\nRespond with ONE line of JSON."
    );
    let empty = user_prompt(&vec![], &case);
    assert!(empty.starts_with("Known scenes: (none registered)\n"));
}

#[test]
fn chat_prompt_wraps_messages() {
    assert_eq!(
        chat_prompt("SYS", "USER"),
        "<|im_start|>system\nSYS<|im_end|>\n<|im_start|>user\nUSER<|im_end|>\n<|im_start|>assistant\n"
    );
    assert!(LocalConfig::default().system_prompt == DEFAULT_SYSTEM_PROMPT);
}

#[test]
fn prompt_budget() {
    assert!(check_prompt_fits(10, 2048).is_ok());
    match check_prompt_fits(2048, 2048) {
        Err(ReflectError::Budget(m)) => assert_eq!(m, "prompt 2048 tokens \u{2265} n_ctx 2048"),
        other => panic!("unexpected {other:?}"),
    }
}

#[test]
fn budget_defaults_and_unknown_constructor() {
    let b = ReflectionBudget::default();
    assert_eq!((b.max_time_ms, b.max_tokens, b.max_tool_calls), (2000, 1024, 7));
    match Reflection::unknown("s") {
        Reflection::Unknown { summary, top_features } => {
            assert_eq!(summary, "s");
            assert!(top_features.is_empty());
        },
        other => panic!("unexpected {other:?}"),
    }
    let mut m = MockReflector::new(vec![]);
    assert_eq!(m.name(), "mock");
    assert_eq!(m.fingerprint(), PromptHash("mock@v1".into()));
    assert!(m.reflect_case(&case()).is_err());
}

#[test]
fn reading_from_given_parse_outcomes() {
    let fields = |kind: Option<&str>| ReflectionFields {
        kind: kind.map(|k| k.to_string()),
        scene_id: Some("s".into()),
        rationale: None,
        yaml: None,
        reason: None,
        summary: None,
        top_features: Some(vec![Some("x".into()), None]),
    };
    match reflection_from_parse(Err("eof".into()), "\"{\"") {
        Err(ReflectError::InvalidProposal(m)) => assert_eq!(m, "JSON parse: eof in \"{\""),
        other => panic!("unexpected {other:?}"),
    }
    match reflection_from_parse(Ok(fields(Some("map"))), "q").unwrap() {
        Reflection::MapsTo { scene_id, rationale } => {
            assert_eq!(scene_id, "s");
            assert_eq!(rationale, "(no rationale)");
        },
        other => panic!("unexpected {other:?}"),
    }
    match reflection_from_fields(fields(None), "Q") {
        Err(ReflectError::InvalidProposal(m)) => assert_eq!(m, "no 'kind' field in Q"),
        other => panic!("unexpected {other:?}"),
    }
    match reflection_from_fields(fields(Some("unknown")), "Q").unwrap() {
        Reflection::Unknown { top_features, .. } => assert_eq!(top_features, vec!["x".to_string()]),
        other => panic!("unexpected {other:?}"),
    }
}
