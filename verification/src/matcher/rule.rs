//! Rule matcher — evaluates scene conditions against a FeatureBundle.

use vstd::prelude::*;

use crate::dsl::schema::{Condition, Op, Value};
use crate::feature::{is_valid_key, FeatureBundle, FeatureValue};
use crate::scene::{evidence_views, Evidence, EvidenceKind, Scene};
use crate::text::{decimal, fixed_text, push_decimal, push_fixed, push_str, SCALE};

verus! {

/// Trait for hot-path rule matchers.
pub trait RuleMatcher {
    /// The candidate matches this matcher finds for `bundle` over `scenes`.
    spec fn matches_spec(&self, bundle: FeatureBundle, scenes: Seq<Scene>) -> Seq<MatchView>;

    /// Evaluate all scenes against a bundle, return candidate matches.
    fn match_scenes(&self, bundle: &FeatureBundle, scenes: &[Scene]) -> (r: Vec<SceneMatch>)
        ensures
            match_views(r@) == self.matches_spec(*bundle, scenes@),
    ;
}

/// Candidate match — one scene's evaluation result against a bundle.
#[derive(Debug)]
pub struct SceneMatch {
    /// Which scene matched.
    pub scene_id: String,
    /// Confidence in `[0, SCALE]` — `SCALE` when the scene fully matches.
    pub confidence: i64,
    /// Human-readable evidence entries.
    pub evidence: Vec<Evidence>,
    /// Priority copied from the Scene (for Arbiter tie-breaking).
    pub priority: i32,
}

/// Abstract match: strings as character sequences.
pub struct MatchView {
    pub scene_id: Seq<char>,
    pub confidence: int,
    pub evidence: Seq<(EvidenceKind, Seq<char>)>,
    pub priority: int,
}

impl View for SceneMatch {
    type V = MatchView;

    open spec fn view(&self) -> MatchView {
        MatchView {
            scene_id: self.scene_id@,
            confidence: self.confidence as int,
            evidence: evidence_views(self.evidence@),
            priority: self.priority as int,
        }
    }
}

/// The views of a list of matches.
pub open spec fn match_views(s: Seq<SceneMatch>) -> Seq<MatchView> {
    s.map_values(|m: SceneMatch| m@)
}

/// Whether a reading equals a condition value: numbers exactly, booleans,
/// and category labels against strings.
pub open spec fn value_eq(v: FeatureValue, t: Value) -> bool {
    match (v, t) {
        (FeatureValue::F64(a), Value::Number(b)) => a == b,
        (FeatureValue::Bool(a), Value::Bool(b)) => a == b,
        (FeatureValue::Category(a), Value::String(b)) => a@ == b@,
        _ => false,
    }
}

/// Whether a reading equals some member of a list.
pub open spec fn in_list(v: FeatureValue, l: Seq<Value>) -> bool {
    exists|i: int| 0 <= i < l.len() && value_eq(v, #[trigger] l[i])
}

/// Numeric comparison of a reading with a target; false unless both are numbers.
pub open spec fn num_cmp(op: Op, v: FeatureValue, t: Value) -> bool {
    match (v, t) {
        (FeatureValue::F64(a), Value::Number(b)) => match op {
            Op::Gt => a > b,
            Op::Gte => a >= b,
            Op::Lt => a < b,
            _ => a <= b,
        },
        _ => false,
    }
}

/// Whether reading `v` satisfies `op target`.
pub open spec fn eval_spec(op: Op, v: FeatureValue, t: Value) -> bool {
    match op {
        Op::Gt | Op::Gte | Op::Lt | Op::Lte => num_cmp(op, v, t),
        Op::Eq => value_eq(v, t),
        Op::Ne => !value_eq(v, t),
        Op::In => t matches Value::List(l) && in_list(v, l@),
        Op::NotIn => t matches Value::List(l) && !in_list(v, l@),
    }
}

/// The reading a condition's feature name refers to: none when the name is not
/// a valid key or the bundle lacks it.
pub open spec fn reading(b: Map<Seq<char>, FeatureValue>, feature: Seq<char>) -> Option<FeatureValue> {
    if is_valid_key(feature) && b.contains_key(feature) {
        Some(b[feature])
    } else {
        None
    }
}

/// Whether a condition holds on a bundle (a missing feature fails).
pub open spec fn condition_holds(c: Condition, b: Map<Seq<char>, FeatureValue>) -> bool {
    match reading(b, c.feature@) {
        Some(v) => eval_spec(c.op, v, c.value),
        None => false,
    }
}

/// `{:?}` of an operator.
pub open spec fn op_name(op: Op) -> Seq<char> {
    match op {
        Op::Gt => "Gt"@,
        Op::Gte => "Gte"@,
        Op::Lt => "Lt"@,
        Op::Lte => "Lte"@,
        Op::Eq => "Eq"@,
        Op::Ne => "Ne"@,
        Op::In => "In"@,
        Op::NotIn => "NotIn"@,
    }
}

/// Text of a condition value in evidence.
pub open spec fn value_text(v: Value) -> Seq<char> {
    match v {
        Value::Number(n) => fixed_text(n as int),
        Value::Bool(b) => if b { "true"@ } else { "false"@ },
        Value::String(s) => s@,
        Value::List(l) => "["@ + decimal(l@.len()) + " items]"@,
    }
}

/// Evidence that one condition leaves.
pub open spec fn condition_evidence(c: Condition, b: Map<Seq<char>, FeatureValue>) -> (EvidenceKind, Seq<char>) {
    match reading(b, c.feature@) {
        None => (EvidenceKind::FeatureValue, "missing feature '"@ + c.feature@ + "'"@),
        Some(v) => (
            EvidenceKind::RuleFired,
            c.feature@ + " "@ + op_name(c.op) + " "@ + value_text(c.value) + " → "@ + if eval_spec(
                c.op,
                v,
                c.value,
            ) {
                "pass"@
            } else {
                "fail"@
            },
        ),
    }
}

/// The evidence a list of conditions leaves, in order.
pub open spec fn evidence_of(conds: Seq<Condition>, b: Map<Seq<char>, FeatureValue>) -> Seq<(EvidenceKind, Seq<char>)> {
    conds.map_values(|c: Condition| condition_evidence(c, b))
}

/// A scene matches when every `all` condition holds, some `any` condition
/// holds (or `any` is empty), and no `none` condition holds.
pub open spec fn scene_matches(s: Scene, b: Map<Seq<char>, FeatureValue>) -> bool {
    &&& forall|i: int| 0 <= i < s.match_rules.all@.len() ==> condition_holds(#[trigger] s.match_rules.all@[i], b)
    &&& (s.match_rules.any@.len() == 0 || exists|i: int|
        0 <= i < s.match_rules.any@.len() && condition_holds(#[trigger] s.match_rules.any@[i], b))
    &&& forall|i: int| 0 <= i < s.match_rules.none@.len() ==> !condition_holds(#[trigger] s.match_rules.none@[i], b)
}

/// The conditions of a scene in evaluation order: `all`, `any`, `none`.
pub open spec fn scene_conditions(s: Scene) -> Seq<Condition> {
    s.match_rules.all@ + s.match_rules.any@ + s.match_rules.none@
}

/// The evaluation of one scene.
pub open spec fn match_view(s: Scene, b: Map<Seq<char>, FeatureValue>) -> MatchView {
    MatchView {
        scene_id: s.id@,
        confidence: if scene_matches(s, b) { SCALE as int } else { 0 },
        evidence: evidence_of(scene_conditions(s), b),
        priority: s.priority as int,
    }
}

/// The candidate matches of a scene list: one per matching scene, in order.
pub open spec fn matches_of(scenes: Seq<Scene>, b: Map<Seq<char>, FeatureValue>) -> Seq<MatchView>
    decreases scenes.len(),
{
    if scenes.len() == 0 {
        Seq::empty()
    } else {
        let rest = matches_of(scenes.drop_last(), b);
        if scene_matches(scenes.last(), b) {
            rest.push(match_view(scenes.last(), b))
        } else {
            rest
        }
    }
}

/// A scene's evaluation against a bundle: it scores `SCALE` exactly when
/// every `all` condition holds on the bundle, some `any` condition holds (or
/// `any` is empty), and no `none` condition holds; otherwise it scores 0.
pub proof fn lemma_match_view_decides(s: Scene, b: Map<Seq<char>, FeatureValue>)
    ensures
        match_view(s, b).confidence == SCALE || match_view(s, b).confidence == 0,
        match_view(s, b).confidence == SCALE <==> {
            &&& forall|i: int| 0 <= i < s.match_rules.all@.len() ==> condition_holds(#[trigger] s.match_rules.all@[i], b)
            &&& (s.match_rules.any@.len() == 0 || exists|i: int|
                0 <= i < s.match_rules.any@.len() && condition_holds(#[trigger] s.match_rules.any@[i], b))
            &&& forall|i: int|
                0 <= i < s.match_rules.none@.len() ==> !condition_holds(#[trigger] s.match_rules.none@[i], b)
        },
        match_view(s, b).scene_id == s.id@,
        match_view(s, b).priority == s.priority,
{
}

/// Every candidate match scores `SCALE`, and each scene of the list that
/// scores `SCALE` is among the candidates.
pub proof fn lemma_matches_of_members(scenes: Seq<Scene>, b: Map<Seq<char>, FeatureValue>)
    ensures
        forall|m: int| 0 <= m < matches_of(scenes, b).len() ==> (#[trigger] matches_of(scenes, b)[m]).confidence == SCALE,
        forall|k: int| 0 <= k < scenes.len() && match_view(#[trigger] scenes[k], b).confidence == SCALE
            ==> matches_of(scenes, b).contains(match_view(scenes[k], b)),
    decreases scenes.len(),
{
    if scenes.len() > 0 {
        let init = scenes.drop_last();
        lemma_matches_of_members(init, b);
        let rest = matches_of(init, b);
        let all = matches_of(scenes, b);
        assert forall|m: int| 0 <= m < all.len() implies (#[trigger] all[m]).confidence == SCALE by {
            if m < rest.len() {
                assert(all[m] == rest[m]);
            }
        }
        assert forall|k: int| 0 <= k < scenes.len() && match_view(#[trigger] scenes[k], b).confidence == SCALE
            implies all.contains(match_view(scenes[k], b)) by {
            if k < init.len() {
                assert(init[k] == scenes[k]);
                let m = choose|m: int| 0 <= m < rest.len() && rest[m] == match_view(init[k], b);
                assert(all[m] == rest[m]);
            } else {
                assert(all[all.len() - 1] == match_view(scenes[k], b));
            }
        }
    }
}

/// `none` excludes: when some condition of a scene's `none` list holds on
/// the bundle, the scene scores 0 and is not among the candidate matches.
pub proof fn lemma_none_condition_excludes(scenes: Seq<Scene>, b: Map<Seq<char>, FeatureValue>, k: int, i: int)
    requires
        0 <= k < scenes.len(),
        0 <= i < scenes[k].match_rules.none@.len(),
        condition_holds(scenes[k].match_rules.none@[i], b),
    ensures
        match_view(scenes[k], b).confidence == 0,
        !matches_of(scenes, b).contains(match_view(scenes[k], b)),
{
    lemma_matches_of_members(scenes, b);
    if matches_of(scenes, b).contains(match_view(scenes[k], b)) {
        let m = choose|m: int| 0 <= m < matches_of(scenes, b).len() && matches_of(scenes, b)[m] == match_view(scenes[k], b);
        assert(matches_of(scenes, b)[m].confidence == SCALE);
    }
}

/// `all` requires every condition: when some condition of a scene's `all`
/// list fails on the bundle, the scene scores 0 and is not a candidate.
pub proof fn lemma_failed_all_condition_excludes(scenes: Seq<Scene>, b: Map<Seq<char>, FeatureValue>, k: int, i: int)
    requires
        0 <= k < scenes.len(),
        0 <= i < scenes[k].match_rules.all@.len(),
        !condition_holds(scenes[k].match_rules.all@[i], b),
    ensures
        match_view(scenes[k], b).confidence == 0,
        !matches_of(scenes, b).contains(match_view(scenes[k], b)),
{
    lemma_matches_of_members(scenes, b);
    if matches_of(scenes, b).contains(match_view(scenes[k], b)) {
        let m = choose|m: int| 0 <= m < matches_of(scenes, b).len() && matches_of(scenes, b)[m] == match_view(scenes[k], b);
        assert(matches_of(scenes, b)[m].confidence == SCALE);
    }
}

/// `any` requires one condition: when a scene's `any` list is non-empty and
/// none of its conditions holds, the scene scores 0 and is not a candidate.
pub proof fn lemma_failed_any_excludes(scenes: Seq<Scene>, b: Map<Seq<char>, FeatureValue>, k: int)
    requires
        0 <= k < scenes.len(),
        scenes[k].match_rules.any@.len() > 0,
        forall|i: int| 0 <= i < scenes[k].match_rules.any@.len() ==> !condition_holds(#[trigger] scenes[k].match_rules.any@[i], b),
    ensures
        match_view(scenes[k], b).confidence == 0,
        !matches_of(scenes, b).contains(match_view(scenes[k], b)),
{
    lemma_matches_of_members(scenes, b);
    if matches_of(scenes, b).contains(match_view(scenes[k], b)) {
        let m = choose|m: int| 0 <= m < matches_of(scenes, b).len() && matches_of(scenes, b)[m] == match_view(scenes[k], b);
        assert(matches_of(scenes, b)[m].confidence == SCALE);
    }
}

fn eq_value(value: &FeatureValue, target: &Value) -> (r: bool)
    ensures
        r == value_eq(*value, *target),
{
    match (value, target) {
        (FeatureValue::F64(a), Value::Number(b)) => *a == *b,
        (FeatureValue::Bool(a), Value::Bool(b)) => *a == *b,
        (FeatureValue::Category(a), Value::String(b)) => crate::text::str_eq(a.as_str(), b.as_str()),
        _ => false,
    }
}

fn any_eq(value: &FeatureValue, list: &[Value]) -> (r: bool)
    ensures
        r == in_list(*value, list@),
{
    let mut i: usize = 0;
    while i < list.len()
        invariant
            i <= list@.len(),
            forall|j: int| 0 <= j < i ==> !value_eq(*value, #[trigger] list@[j]),
        decreases list@.len() - i,
    {
        if eq_value(value, &list[i]) {
            return true;
        }
        i = i + 1;
    }
    false
}

fn eval(op: Op, value: &FeatureValue, target: &Value) -> (r: bool)
    ensures
        r == eval_spec(op, *value, *target),
{
    match op {
        Op::Gt | Op::Gte | Op::Lt | Op::Lte => match (value, target) {
            (FeatureValue::F64(a), Value::Number(b)) => match op {
                Op::Gt => *a > *b,
                Op::Gte => *a >= *b,
                Op::Lt => *a < *b,
                _ => *a <= *b,
            },
            _ => false,
        },
        Op::Eq => eq_value(value, target),
        Op::Ne => !eq_value(value, target),
        Op::In => match target {
            Value::List(l) => any_eq(value, l.as_slice()),
            _ => false,
        },
        Op::NotIn => match target {
            Value::List(l) => !any_eq(value, l.as_slice()),
            _ => false,
        },
    }
}

fn op_text(op: Op) -> (r: &'static str)
    ensures
        r@ == op_name(op),
{
    match op {
        Op::Gt => "Gt",
        Op::Gte => "Gte",
        Op::Lt => "Lt",
        Op::Lte => "Lte",
        Op::Eq => "Eq",
        Op::Ne => "Ne",
        Op::In => "In",
        Op::NotIn => "NotIn",
    }
}

fn push_value_text(s: &mut String, v: &Value)
    ensures
        final(s)@ == old(s)@ + value_text(*v),
{
    match v {
        Value::Number(n) => push_fixed(s, *n),
        Value::Bool(b) => push_str(s, if *b { "true" } else { "false" }),
        Value::String(t) => push_str(s, t.as_str()),
        Value::List(l) => {
            let ghost s0 = s@;
            push_str(s, "[");
            push_decimal(s, l.len() as u64);
            push_str(s, " items]");
            assert(s@ =~= s0 + value_text(*v));
        },
    }
}

/// Simple boolean rule matcher: `all` must all pass, `any` must have ≥1 pass,
/// `none` must have all fail. Confidence is `SCALE` (1.0) when a scene fully
/// matches, 0 otherwise.
#[derive(Debug, Default, Clone, Copy)]
pub struct SimpleRuleMatcher;

impl SimpleRuleMatcher {
    /// Create an instance.
    pub fn new() -> (r: Self) {
        SimpleRuleMatcher
    }

    fn eval_condition(&self, cond: &Condition, bundle: &FeatureBundle) -> (r: (bool, Evidence))
        ensures
            r.0 == condition_holds(*cond, bundle@),
            r.1@ == condition_evidence(*cond, bundle@),
    {
        match bundle.get_str(cond.feature.as_str()) {
            None => {
                let mut d = String::new();
                push_str(&mut d, "missing feature '");
                push_str(&mut d, cond.feature.as_str());
                push_str(&mut d, "'");
                (false, Evidence { kind: EvidenceKind::FeatureValue, description: d })
            },
            Some(v) => {
                let passed = eval(cond.op, v, &cond.value);
                let mut d = String::new();
                push_str(&mut d, cond.feature.as_str());
                push_str(&mut d, " ");
                push_str(&mut d, op_text(cond.op));
                push_str(&mut d, " ");
                push_value_text(&mut d, &cond.value);
                push_str(&mut d, " → ");
                push_str(&mut d, if passed { "pass" } else { "fail" });
                (passed, Evidence { kind: EvidenceKind::RuleFired, description: d })
            },
        }
    }

    /// Evaluate one scene against a bundle.
    pub fn match_one(&self, scene: &Scene, bundle: &FeatureBundle) -> (r: SceneMatch)
        ensures
            r@ == match_view(*scene, bundle@),
            r.scene_id == scene.id,
    {
        let ghost b = bundle@;
        let ghost conds = scene_conditions(*scene);
        let mut evidence: Vec<Evidence> = Vec::new();
        let all = &scene.match_rules.all;
        let any = &scene.match_rules.any;
        let none = &scene.match_rules.none;

        let mut all_ok = true;
        let mut i: usize = 0;
        while i < all.len()
            invariant
                b == bundle@,
                i <= all@.len(),
                evidence_views(evidence@) == evidence_of(all@.take(i as int), b),
                all_ok == forall|j: int| 0 <= j < i ==> condition_holds(#[trigger] all@[j], b),
            decreases all@.len() - i,
        {
            let (ok, e) = self.eval_condition(&all[i], bundle);
            let ghost prev = evidence@;
            let ghost e_view = e@;
            evidence.push(e);
            assert(evidence_views(evidence@) =~= evidence_views(prev).push(e_view));
            assert(evidence_of(all@.take(i + 1), b) =~= evidence_of(all@.take(i as int), b).push(condition_evidence(all@[i as int], b)));
            if !ok {
                all_ok = false;
            }
            proof {
                assert(all@.take(i + 1) =~= all@.take(i as int).push(all@[i as int]));
                assert(evidence_views(evidence@) =~= evidence_of(all@.take(i + 1), b));
            }
            i = i + 1;
        }
        assert(all@.take(all@.len() as int) =~= all@);

        let mut seen_pass = false;
        let mut i: usize = 0;
        while i < any.len()
            invariant
                b == bundle@,
                i <= any@.len(),
                evidence_views(evidence@) == evidence_of(all@, b) + evidence_of(any@.take(i as int), b),
                seen_pass == exists|j: int| 0 <= j < i && condition_holds(#[trigger] any@[j], b),
            decreases any@.len() - i,
        {
            let (ok, e) = self.eval_condition(&any[i], bundle);
            let ghost prev = evidence@;
            let ghost e_view = e@;
            evidence.push(e);
            assert(evidence_views(evidence@) =~= evidence_views(prev).push(e_view));
            assert(evidence_of(any@.take(i + 1), b) =~= evidence_of(any@.take(i as int), b).push(condition_evidence(any@[i as int], b)));
            if ok {
                seen_pass = true;
            }
            proof {
                assert(any@.take(i + 1) =~= any@.take(i as int).push(any@[i as int]));
                assert(evidence_views(evidence@) =~= evidence_of(all@, b) + evidence_of(any@.take(i + 1), b));
                if seen_pass && !ok {
                    let j = choose|j: int| 0 <= j < i && condition_holds(#[trigger] any@[j], b);
                    assert(0 <= j < i + 1 && condition_holds(any@[j], b));
                }
            }
            i = i + 1;
        }
        assert(any@.take(any@.len() as int) =~= any@);
        let any_ok = any.len() == 0 || seen_pass;

        let mut none_ok = true;
        let mut i: usize = 0;
        while i < none.len()
            invariant
                b == bundle@,
                i <= none@.len(),
                evidence_views(evidence@) == evidence_of(all@, b) + evidence_of(any@, b) + evidence_of(none@.take(
                    i as int,
                ), b),
                none_ok == forall|j: int| 0 <= j < i ==> !condition_holds(#[trigger] none@[j], b),
            decreases none@.len() - i,
        {
            let (ok, e) = self.eval_condition(&none[i], bundle);
            let ghost prev = evidence@;
            let ghost e_view = e@;
            evidence.push(e);
            assert(evidence_views(evidence@) =~= evidence_views(prev).push(e_view));
            assert(evidence_of(none@.take(i + 1), b) =~= evidence_of(none@.take(i as int), b).push(condition_evidence(none@[i as int], b)));
            if ok {
                none_ok = false;
            }
            proof {
                assert(none@.take(i + 1) =~= none@.take(i as int).push(none@[i as int]));
                assert(evidence_views(evidence@) =~= evidence_of(all@, b) + evidence_of(any@, b) + evidence_of(none@.take(
                    i + 1,
                ), b));
            }
            i = i + 1;
        }
        assert(none@.take(none@.len() as int) =~= none@);
        assert(evidence_of(conds, b) =~= evidence_of(all@, b) + evidence_of(any@, b) + evidence_of(none@, b));

        let passed = all_ok && any_ok && none_ok;
        SceneMatch {
            scene_id: scene.id.clone(),
            confidence: if passed { 1_000_000 } else { 0 },
            evidence,
            priority: scene.priority,
        }
    }
}

impl RuleMatcher for SimpleRuleMatcher {
    /// The scenes that match, in order, each with its evidence.
    open spec fn matches_spec(&self, bundle: FeatureBundle, scenes: Seq<Scene>) -> Seq<MatchView> {
        matches_of(scenes, bundle@)
    }

    fn match_scenes(&self, bundle: &FeatureBundle, scenes: &[Scene]) -> (r: Vec<SceneMatch>)
    {
        let mut r: Vec<SceneMatch> = Vec::new();
        let mut i: usize = 0;
        while i < scenes.len()
            invariant
                i <= scenes@.len(),
                match_views(r@) == matches_of(scenes@.take(i as int), bundle@),
            decreases scenes@.len() - i,
        {
            let m = self.match_one(&scenes[i], bundle);
            assert(scenes@.take(i + 1).drop_last() =~= scenes@.take(i as int));
            if m.confidence > 0 {
                r.push(m);
            }
            assert(match_views(r@) =~= matches_of(scenes@.take(i + 1), bundle@));
            i = i + 1;
        }
        assert(scenes@.take(scenes@.len() as int) =~= scenes@);
        r
    }
}

} // verus!
