//! Rules that turn parsed scene files into the engine's scene list: no two
//! scenes share an id, every feature reference resolves in the registry
//! (when the registry is not empty), and the list is ordered by descending
//! priority, ties broken by id.

use vstd::prelude::*;

use crate::error::Error;
use crate::feature::{is_valid_key, FeatureKey};
use crate::registry::{closest_spec, opt_seq, FeatureRegistry};
use crate::scene::Scene;
use crate::dsl::schema::Condition;
use crate::text::{char_seq_lt, lemma_char_seq_lt_total, lemma_char_seq_lt_transitive, push_str, str_eq, str_lt};

verus! {

broadcast use vstd::seq_lib::group_to_multiset_ensures;

/// The conditions of a scene, `all` then `any` then `none`.
pub open spec fn conditions(s: Scene) -> Seq<Condition> {
    s.match_rules.all@ + s.match_rules.any@ + s.match_rules.none@
}

/// A condition's feature reference is well formed and registered.
pub open spec fn resolves(c: Condition, reg: FeatureRegistry) -> bool {
    is_valid_key(c.feature@) && reg@.contains_key(c.feature@)
}

/// The error for condition `c` of scene `s` that does not resolve.
pub open spec fn reference_error(s: Scene, c: Condition, reg: FeatureRegistry, e: Error) -> bool {
    if !is_valid_key(c.feature@) {
        e matches Error::InvalidScene { scene_id, message } && scene_id@ == s.id@ && message@
            == "invalid feature key syntax: '"@ + c.feature@ + "'"@
    } else {
        e matches Error::UnknownFeature { key, scene_id, did_you_mean } && key@ == c.feature@ && scene_id@
            == s.id@ && opt_seq(did_you_mean) == closest_spec(reg.keys(), c.feature@)
    }
}

/// `e` is the error for the first condition of `s` that does not resolve.
pub open spec fn validation_error(s: Scene, reg: FeatureRegistry, e: Error) -> bool {
    exists|k: int|
        0 <= k < conditions(s).len() && (forall|j: int| 0 <= j < k ==> resolves(#[trigger] conditions(s)[j], reg))
            && !resolves(#[trigger] conditions(s)[k], reg) && reference_error(s, conditions(s)[k], reg, e)
}

/// Validate that every `feature:` reference in a scene resolves in the
/// registry. The first failing reference gives `InvalidScene` (malformed
/// key) or `UnknownFeature` with a `did_you_mean` suggestion.
pub fn validate_features(scene: &Scene, registry: &FeatureRegistry) -> (r: Result<(), Error>)
    ensures
        match r {
            Ok(()) => forall|j: int| 0 <= j < conditions(*scene).len() ==> resolves(#[trigger] conditions(*scene)[j], *registry),
            Err(e) => validation_error(*scene, *registry, e),
        },
        r is Ok ==> forall|i: int| 0 <= i < scene.match_rules.all@.len() ==> resolves(#[trigger] scene.match_rules.all@[i], *registry),
        r is Ok ==> forall|i: int| 0 <= i < scene.match_rules.any@.len() ==> resolves(#[trigger] scene.match_rules.any@[i], *registry),
        r is Ok ==> forall|i: int| 0 <= i < scene.match_rules.none@.len() ==> resolves(#[trigger] scene.match_rules.none@[i], *registry),
{
    proof {
        lemma_validation_covers_all_lists(*scene, *registry);
    }
    let conds = scene.match_rules.all_conditions();
    let ghost cs = conditions(*scene);
    let mut i: usize = 0;
    while i < conds.len()
        invariant
            cs == conditions(*scene),
            conds@.len() == cs.len(),
            forall|j: int| 0 <= j < conds@.len() ==> *conds@[j] == cs[j],
            i <= conds@.len(),
            forall|j: int| 0 <= j < i ==> resolves(#[trigger] cs[j], *registry),
        decreases conds@.len() - i,
    {
        let cond = conds[i];
        match FeatureKey::new(cond.feature.as_str()) {
            Err(_) => {
                let mut message = String::new();
                push_str(&mut message, "invalid feature key syntax: '");
                push_str(&mut message, cond.feature.as_str());
                push_str(&mut message, "'");
                let e = Error::InvalidScene { scene_id: scene.id.clone(), message };
                assert(reference_error(*scene, cs[i as int], *registry, e));
                return Err(e);
            },
            Ok(key) => {
                match registry.resolve_or_error(&key, scene.id.as_str()) {
                    Err(e) => {
                        assert(reference_error(*scene, cs[i as int], *registry, e));
                        return Err(e);
                    },
                    Ok(_) => {},
                }
            },
        }
        i = i + 1;
    }
    Ok(())
}

/// Validation covers every rule list: when a scene's references all
/// resolve, each condition of its `all`, `any` and `none` lists names a
/// well-formed key registered in the registry; and a condition of any of the
/// three lists that does not resolve makes validation fail.
pub proof fn lemma_validation_covers_all_lists(s: Scene, reg: FeatureRegistry)
    ensures
        (forall|j: int| 0 <= j < conditions(s).len() ==> resolves(#[trigger] conditions(s)[j], reg)) <==> {
            &&& forall|i: int| 0 <= i < s.match_rules.all@.len() ==> is_valid_key((#[trigger] s.match_rules.all@[i]).feature@)
                && reg@.contains_key(s.match_rules.all@[i].feature@)
            &&& forall|i: int| 0 <= i < s.match_rules.any@.len() ==> is_valid_key((#[trigger] s.match_rules.any@[i]).feature@)
                && reg@.contains_key(s.match_rules.any@[i].feature@)
            &&& forall|i: int| 0 <= i < s.match_rules.none@.len() ==> is_valid_key((#[trigger] s.match_rules.none@[i]).feature@)
                && reg@.contains_key(s.match_rules.none@[i].feature@)
        },
{
    let a = s.match_rules.all@;
    let y = s.match_rules.any@;
    let n = s.match_rules.none@;
    let cs = conditions(s);
    assert(cs.len() == a.len() + y.len() + n.len());
    assert forall|i: int| 0 <= i < a.len() implies cs[i] == #[trigger] a[i] by {}
    assert forall|i: int| 0 <= i < y.len() implies cs[a.len() + i] == #[trigger] y[i] by {}
    assert forall|i: int| 0 <= i < n.len() implies cs[a.len() + y.len() + i] == #[trigger] n[i] by {}
    if forall|j: int| 0 <= j < cs.len() ==> resolves(#[trigger] cs[j], reg) {
        assert forall|i: int| 0 <= i < a.len() implies is_valid_key((#[trigger] a[i]).feature@) && reg@.contains_key(a[i].feature@) by {
            assert(resolves(cs[i], reg));
        }
        assert forall|i: int| 0 <= i < y.len() implies is_valid_key((#[trigger] y[i]).feature@) && reg@.contains_key(y[i].feature@) by {
            assert(resolves(cs[a.len() + i], reg));
        }
        assert forall|i: int| 0 <= i < n.len() implies is_valid_key((#[trigger] n[i]).feature@) && reg@.contains_key(n[i].feature@) by {
            assert(resolves(cs[a.len() + y.len() + i], reg));
        }
    }
    if {
        &&& forall|i: int| 0 <= i < a.len() ==> is_valid_key((#[trigger] a[i]).feature@) && reg@.contains_key(a[i].feature@)
        &&& forall|i: int| 0 <= i < y.len() ==> is_valid_key((#[trigger] y[i]).feature@) && reg@.contains_key(y[i].feature@)
        &&& forall|i: int| 0 <= i < n.len() ==> is_valid_key((#[trigger] n[i]).feature@) && reg@.contains_key(n[i].feature@)
    } {
        assert forall|j: int| 0 <= j < cs.len() implies resolves(#[trigger] cs[j], reg) by {
            if j < a.len() {
                assert(cs[j] == a[j]);
            } else if j < a.len() + y.len() {
                assert(cs[j] == y[j - a.len()]);
            } else {
                assert(cs[j] == n[j - a.len() - y.len()]);
            }
        }
    }
}

/// An admitted scene, checked against a non-empty registry, has every
/// condition of its `all`, `any` and `none` lists resolved.
pub proof fn lemma_admitted_scene_resolves(items: Seq<Result<Scene, Error>>, k: int, reg: FeatureRegistry)
    requires
        0 <= k < items.len(),
        admitted(items, k, reg),
        reg@.dom().len() != 0,
    ensures
        forall|i: int| 0 <= i < items[k]->Ok_0.match_rules.all@.len() ==> resolves(#[trigger] items[k]->Ok_0.match_rules.all@[i], reg),
        forall|i: int| 0 <= i < items[k]->Ok_0.match_rules.any@.len() ==> resolves(#[trigger] items[k]->Ok_0.match_rules.any@[i], reg),
        forall|i: int| 0 <= i < items[k]->Ok_0.match_rules.none@.len() ==> resolves(#[trigger] items[k]->Ok_0.match_rules.none@[i], reg),
{
    lemma_validation_covers_all_lists(items[k]->Ok_0, reg);
}

/// `a` is listed before `b`: higher priority first, then smaller id.
pub open spec fn listed_before(a: Scene, b: Scene) -> bool {
    a.priority > b.priority || (a.priority == b.priority && char_seq_lt(a.id@, b.id@))
}

/// Every scene is listed before every later one.
pub open spec fn sorted_scenes(s: Seq<Scene>) -> bool {
    forall|i: int, j: int| 0 <= i < j < s.len() ==> listed_before(#[trigger] s[i], #[trigger] s[j])
}

/// Item `k` is admitted: it parsed, its id is new, and its references
/// resolve (checked only when the registry is not empty).
pub open spec fn admitted(items: Seq<Result<Scene, Error>>, k: int, reg: FeatureRegistry) -> bool {
    &&& items[k] is Ok
    &&& forall|j: int| 0 <= j < k ==> (items[j] is Ok ==> (#[trigger] items[j])->Ok_0.id@ != items[k]->Ok_0.id@)
    &&& (reg@.dom().len() == 0 || forall|c: int| 0 <= c < conditions(items[k]->Ok_0).len()
        ==> resolves(#[trigger] conditions(items[k]->Ok_0)[c], reg))
}

/// `e` is the error of item `k`, the first that is not admitted.
pub open spec fn rejection(items: Seq<Result<Scene, Error>>, k: int, reg: FeatureRegistry, e: Error) -> bool {
    match items[k] {
        Err(e0) => e == e0,
        Ok(s) => if exists|j: int| 0 <= j < k && (#[trigger] items[j]) is Ok && items[j]->Ok_0.id@ == s.id@ {
            e matches Error::DuplicateScene(id) && id@ == s.id@
        } else {
            reg@.dom().len() != 0 && validation_error(s, reg, e)
        },
    }
}

/// The scenes of a list of parse outcomes (meaningful when all parsed).
pub open spec fn scenes_of(items: Seq<Result<Scene, Error>>) -> Seq<Scene> {
    items.map_values(|it: Result<Scene, Error>| it->Ok_0)
}

proof fn lemma_listed_before_total(a: Scene, b: Scene)
    requires
        a.id@ != b.id@,
        !listed_before(a, b),
    ensures
        listed_before(b, a),
{
    lemma_char_seq_lt_total(a.id@, b.id@);
}

proof fn lemma_listed_before_transitive(a: Scene, b: Scene, c: Scene)
    requires
        listed_before(a, b),
        listed_before(b, c),
    ensures
        listed_before(a, c),
{
    if a.priority == b.priority && b.priority == c.priority {
        lemma_char_seq_lt_transitive(a.id@, b.id@, c.id@);
    }
}

fn scene_listed_before(a: &Scene, b: &Scene) -> (r: bool)
    ensures
        r == listed_before(*a, *b),
{
    a.priority > b.priority || (a.priority == b.priority && str_lt(a.id.as_str(), b.id.as_str()))
}

/// Put `scene` into the sorted list `v` at its place.
fn insert_sorted(v: &mut Vec<Scene>, scene: Scene)
    requires
        sorted_scenes(old(v)@),
        forall|j: int| 0 <= j < old(v)@.len() ==> (#[trigger] old(v)@[j]).id@ != scene.id@,
    ensures
        sorted_scenes(final(v)@),
        final(v)@.to_multiset() == old(v)@.to_multiset().insert(scene),
        final(v)@.len() == old(v)@.len() + 1,
        forall|j: int| 0 <= j < final(v)@.len() ==> (#[trigger] final(v)@[j]).id@ == scene.id@ || exists|q: int|
            0 <= q < old(v)@.len() && old(v)@[q] == final(v)@[j],
{
    let mut p: usize = 0;
    while p < v.len() && !scene_listed_before(&scene, &v[p])
        invariant
            v@ == old(v)@,
            p <= v@.len(),
            forall|q: int| 0 <= q < p ==> listed_before(#[trigger] v@[q], scene),
            forall|j: int| 0 <= j < v@.len() ==> (#[trigger] v@[j]).id@ != scene.id@,
        decreases v@.len() - p,
    {
        proof {
            lemma_listed_before_total(scene, v@[p as int]);
        }
        p = p + 1;
    }
    let ghost s = v@;
    proof {
        assert forall|q: int| p <= q < s.len() implies listed_before(scene, #[trigger] s[q]) by {
            if q > p {
                lemma_listed_before_transitive(scene, s[p as int], s[q]);
            }
        }
    }
    v.insert(p, scene);
    proof {
        let t = v@;
        assert(t == s.insert(p as int, scene));
        assert forall|i: int, j: int| 0 <= i < j < t.len() implies listed_before(#[trigger] t[i], #[trigger] t[j]) by {
            if j < p {
            } else if j == p {
            } else if i < p {
                lemma_listed_before_transitive(t[i], scene, t[j]);
            } else if i == p {
            } else {
            }
        }
        assert forall|j: int| 0 <= j < t.len() implies (#[trigger] t[j]).id@ == scene.id@ || exists|q: int|
            0 <= q < s.len() && s[q] == t[j] by {
            if j < p {
                assert(s[j] == t[j]);
            } else if j > p {
                assert(s[j - 1] == t[j]);
            }
        }
    }
}

fn has_id(v: &Vec<Scene>, id: &str) -> (r: bool)
    ensures
        r == exists|j: int| 0 <= j < v@.len() && (#[trigger] v@[j]).id@ == id@,
{
    let mut j: usize = 0;
    while j < v.len()
        invariant
            j <= v@.len(),
            forall|q: int| 0 <= q < j ==> (#[trigger] v@[q]).id@ != id@,
        decreases v@.len() - j,
    {
        if str_eq(v[j].id.as_str(), id) {
            return true;
        }
        j = j + 1;
    }
    false
}

proof fn lemma_same_elements(a: Seq<Scene>, b: Seq<Scene>, x: Scene)
    requires
        a.to_multiset() == b.to_multiset(),
    ensures
        a.contains(x) <==> b.contains(x),
{
    vstd::seq_lib::to_multiset_contains(a, x);
    vstd::seq_lib::to_multiset_contains(b, x);
}

/// Turn parse outcomes of the scene files (in file-name order) into the scene
/// list. The first item that is not admitted decides the error: its parse
/// error, `DuplicateScene`, or the error of its first unresolved feature
/// reference. Otherwise every scene is kept, ordered by descending priority,
/// ties broken by id.
pub fn collect_scenes(items: Vec<Result<Scene, Error>>, registry: &FeatureRegistry) -> (r: Result<Vec<Scene>, Error>)
    ensures
        match r {
            Ok(v) => (forall|k: int| 0 <= k < items@.len() ==> admitted(items@, k, *registry)) && sorted_scenes(v@)
                && v@.to_multiset() == scenes_of(items@).to_multiset(),
            Err(e) => exists|k: int|
                0 <= k < items@.len() && (forall|j: int| 0 <= j < k ==> admitted(items@, j, *registry))
                    && !admitted(items@, k, *registry) && rejection(items@, k, *registry, e),
        },
{
    let ghost orig = items@;
    let mut rest = items;
    let n = rest.len();
    let mut out: Vec<Scene> = Vec::new();
    let check = !registry.is_empty();
    let mut i: usize = 0;
    while rest.len() > 0
        invariant
            orig == items@,
            orig.len() == n,
            rest@ == orig.skip(i as int),
            i <= orig.len(),
            check == (registry@.dom().len() != 0),
            sorted_scenes(out@),
            forall|k: int| 0 <= k < i ==> admitted(orig, k, *registry),
            out@.to_multiset() == scenes_of(orig.take(i as int)).to_multiset(),
        decreases rest@.len(),
    {
        assert(orig.skip(i as int).len() == orig.len() - i);
        assert(i < orig.len());
        let item = rest.remove(0);
        assert(item == orig[i as int]);
        match item {
            Err(e) => {
                assert(rejection(orig, i as int, *registry, e));
                assert(!admitted(orig, i as int, *registry));
                return Err(e);
            },
            Ok(scene) => {
                let ghost taken = scenes_of(orig.take(i as int));
                if has_id(&out, scene.id.as_str()) {
                    proof {
                        let j = choose|j: int| 0 <= j < out@.len() && (#[trigger] out@[j]).id@ == scene.id@;
                        lemma_same_elements(out@, taken, out@[j]);
                        assert(out@.contains(out@[j]));
                        let q = choose|q: int| 0 <= q < taken.len() && taken[q] == out@[j];
                        assert(taken[q] == orig[q]->Ok_0);
                        assert(admitted(orig, q, *registry));
                        assert(0 <= q < i && orig[q] is Ok && orig[q]->Ok_0.id@ == scene.id@);
                    }
                    let e = Error::DuplicateScene(scene.id.clone());
                    assert(rejection(orig, i as int, *registry, e));
                    assert(!admitted(orig, i as int, *registry));
                    return Err(e);
                }
                proof {
                    assert forall|j: int| 0 <= j < i && (#[trigger] orig[j]) is Ok implies orig[j]->Ok_0.id@ != scene.id@ by {
                        assert(taken[j] == orig[j]->Ok_0);
                        assert(taken.contains(taken[j]));
                        lemma_same_elements(out@, taken, taken[j]);
                        let q = choose|q: int| 0 <= q < out@.len() && out@[q] == taken[j];
                        assert(out@[q].id@ != scene.id@);
                    }
                }
                if check {
                    match validate_features(&scene, registry) {
                        Err(e) => {
                            assert(rejection(orig, i as int, *registry, e));
                            assert(!admitted(orig, i as int, *registry));
                            return Err(e);
                        },
                        Ok(()) => {},
                    }
                }
                let ghost sc = scene;
                insert_sorted(&mut out, scene);
                proof {
                    assert(orig.take(i + 1) =~= orig.take(i as int).push(orig[i as int]));
                    assert(scenes_of(orig.take(i + 1)) =~= scenes_of(orig.take(i as int)).push(sc));
                }
            },
        }
        i = i + 1;
    }
    assert(orig.take(i as int) =~= orig);
    Ok(out)
}


/// The code of `c` with ASCII letters lowered.
pub open spec fn ascii_lower(c: char) -> u32 {
    if 'A' <= c && c <= 'Z' {
        ((c as u32) + 32) as u32
    } else {
        c as u32
    }
}

/// `a` and `b` are equal ignoring ASCII case.
pub open spec fn eq_ignore_ascii_case(a: Seq<char>, b: Seq<char>) -> bool {
    a.len() == b.len() && forall|i: int| 0 <= i < a.len() ==> ascii_lower(#[trigger] a[i]) == ascii_lower(b[i])
}

fn lower(c: char) -> (r: u32)
    ensures
        r == ascii_lower(c),
{
    if 'A' <= c && c <= 'Z' {
        (c as u32) + 32
    } else {
        c as u32
    }
}

fn same_ignoring_case(a: &str, b: &str) -> (r: bool)
    ensures
        r == eq_ignore_ascii_case(a@, b@),
{
    let av = crate::text::chars_of(a);
    let bv = crate::text::chars_of(b);
    if av.len() != bv.len() {
        return false;
    }
    let mut i: usize = 0;
    while i < av.len()
        invariant
            av@ == a@,
            bv@ == b@,
            av@.len() == bv@.len(),
            i <= av@.len(),
            forall|j: int| 0 <= j < i ==> ascii_lower(#[trigger] av@[j]) == ascii_lower(bv@[j]),
        decreases av@.len() - i,
    {
        if lower(av[i]) != lower(bv[i]) {
            return false;
        }
        i = i + 1;
    }
    true
}

/// Whether a file extension marks a scene file: `yaml` or `yml`, in any
/// ASCII case.
pub fn is_scene_extension(ext: &str) -> (r: bool)
    ensures
        r == (eq_ignore_ascii_case(ext@, "yaml"@) || eq_ignore_ascii_case(ext@, "yml"@)),
{
    same_ignoring_case(ext, "yaml") || same_ignoring_case(ext, "yml")
}

} // verus!
