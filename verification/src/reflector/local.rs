//! Configuration and text handling of the local LLM reflector: its default
//! configuration and system prompt, the known-scene list, the user prompt,
//! and reading a reflection out of the model's free-form reply.

use vstd::prelude::*;

use super::{PendingCase, ReflectError, Reflection};
use crate::feature::FeatureValue;
use crate::registry::opt_seq;
use crate::text::{
    char_seq_lt, chars_of, fixed_text, lemma_char_seq_lt_asymmetric, lemma_char_seq_lt_irreflexive,
    lemma_char_seq_lt_total,
    lemma_char_seq_lt_transitive, push_fixed, push_str, str_eq, str_lt, string_from_chars, decimal,
    push_decimal,
};

verus! {

/// Local reflector configuration.
#[derive(Debug)]
pub struct LocalConfig {
    /// Context length in tokens.
    pub n_ctx: u32,
    /// Number of layers to offload to the GPU; -1 offloads all, 0 is CPU only.
    pub n_gpu_layers: i32,
    /// Max new tokens per reflection.
    pub max_new_tokens: u32,
    /// Known scene ids (fed into the prompt so the model can map to one).
    pub known_scenes: Vec<String>,
    /// System prompt prefix.
    pub system_prompt: String,
}

/// The default system prompt.
pub const DEFAULT_SYSTEM_PROMPT: &'static str = "You are a scene classifier for an AI agent. Given feature readings, pick one of the known scenes if it fits, propose a new YAML scene if none fit, or say Unknown. Respond with ONE line of valid JSON, no commentary.\nOutput shape is one of:\n  {\"kind\":\"map\",\"scene_id\":\"<id>\",\"rationale\":\"<short>\"}\n  {\"kind\":\"propose\",\"yaml\":\"<yaml>\",\"reason\":\"<why new>\"}\n  {\"kind\":\"unknown\",\"summary\":\"<one-sentence>\",\"top_features\":[\"<key>\",\"<key>\"]}";

/// The default system prompt.
pub fn default_system_prompt() -> (r: &'static str)
    ensures
        r@ == DEFAULT_SYSTEM_PROMPT@,
{
    DEFAULT_SYSTEM_PROMPT
}

impl Default for LocalConfig {
    fn default() -> (r: Self)
        ensures
            r.n_ctx == 2048,
            r.n_gpu_layers == -1,
            r.max_new_tokens == 256,
            r.known_scenes@.len() == 0,
            r.system_prompt@ == DEFAULT_SYSTEM_PROMPT@,
    {
        LocalConfig {
            n_ctx: 2048,
            n_gpu_layers: -1,
            max_new_tokens: 256,
            known_scenes: Vec::new(),
            system_prompt: default_system_prompt().to_owned(),
        }
    }
}

/// The views of a list of strings.
pub open spec fn string_views(s: Seq<String>) -> Seq<Seq<char>> {
    s.map_values(|x: String| x@)
}

/// Strictly increasing in the order of `String`.
pub open spec fn strictly_sorted(s: Seq<Seq<char>>) -> bool {
    forall|i: int, j: int| 0 <= i < j < s.len() ==> char_seq_lt(#[trigger] s[i], #[trigger] s[j])
}

/// Sorting and deduplicating fixes the list: two strictly increasing lists
/// of the same scenes are the same list, whatever order and repetitions the
/// scenes came in.
pub proof fn lemma_strictly_sorted_unique(a: Seq<Seq<char>>, b: Seq<Seq<char>>)
    requires
        strictly_sorted(a),
        strictly_sorted(b),
        a.to_set() == b.to_set(),
    ensures
        a == b,
    decreases a.len(),
{
    if a.len() == 0 {
        if b.len() > 0 {
            assert(b.to_set().contains(b[0]));
        }
        assert(a =~= b);
    } else {
        assert(a.to_set().contains(a[0]));
        assert(b.len() > 0);
        assert(b.to_set().contains(b[0]));
        let k = choose|k: int| 0 <= k < b.len() && b[k] == a[0];
        let m = choose|m: int| 0 <= m < a.len() && a[m] == b[0];
        if k > 0 {
            if m > 0 {
                lemma_char_seq_lt_asymmetric(a[0], b[0]);
            } else {
                lemma_char_seq_lt_irreflexive(b[0]);
            }
        }
        assert(a[0] == b[0]);
        let a1 = a.drop_first();
        let b1 = b.drop_first();
        assert forall|y: Seq<char>| a1.to_set().contains(y) <==> b1.to_set().contains(y) by {
            if a1.contains(y) {
                let i = choose|i: int| 0 <= i < a1.len() && a1[i] == y;
                assert(a[i + 1] == y);
                assert(b.to_set().contains(y));
                let j = choose|j: int| 0 <= j < b.len() && b[j] == y;
                if j == 0 {
                    lemma_char_seq_lt_irreflexive(a[0]);
                } else {
                    assert(b1[j - 1] == y);
                }
            }
            if b1.contains(y) {
                let j = choose|j: int| 0 <= j < b1.len() && b1[j] == y;
                assert(b[j + 1] == y);
                assert(a.to_set().contains(y));
                let i = choose|i: int| 0 <= i < a.len() && a[i] == y;
                if i == 0 {
                    lemma_char_seq_lt_irreflexive(b[0]);
                } else {
                    assert(a1[i - 1] == y);
                }
            }
        }
        assert(a1.to_set() =~= b1.to_set());
        assert(strictly_sorted(a1)) by {
            assert forall|i: int, j: int| 0 <= i < j < a1.len() implies char_seq_lt(#[trigger] a1[i], #[trigger] a1[j]) by {
                assert(a1[i] == a[i + 1] && a1[j] == a[j + 1]);
            }
        }
        assert(strictly_sorted(b1)) by {
            assert forall|i: int, j: int| 0 <= i < j < b1.len() implies char_seq_lt(#[trigger] b1[i], #[trigger] b1[j]) by {
                assert(b1[i] == b[i + 1] && b1[j] == b[j + 1]);
            }
        }
        lemma_strictly_sorted_unique(a1, b1);
        assert(a =~= b) by {
            assert forall|i: int| 0 <= i < a.len() implies a[i] == b[i] by {
                if i > 0 {
                    assert(a[i] == a1[i - 1] && b[i] == b1[i - 1]);
                }
            }
        }
    }
}

/// The scene list sorted and deduplicated (for a stable prompt).
pub fn sorted_unique(scenes: Vec<String>) -> (r: Vec<String>)
    ensures
        strictly_sorted(string_views(r@)),
        string_views(r@).to_set() == string_views(scenes@).to_set(),
{
    let mut out: Vec<String> = Vec::new();
    let mut i: usize = 0;
    let ghost input = string_views(scenes@);
    while i < scenes.len()
        invariant
            input == string_views(scenes@),
            i <= scenes@.len(),
            strictly_sorted(string_views(out@)),
            string_views(out@).to_set() == input.take(i as int).to_set(),
        decreases scenes@.len() - i,
    {
        let s = &scenes[i];
        let ghost ov = string_views(out@);
        let mut p: usize = 0;
        while p < out.len() && str_lt(out[p].as_str(), s.as_str())
            invariant
                ov == string_views(out@),
                p <= out@.len(),
                forall|q: int| 0 <= q < p ==> char_seq_lt(#[trigger] ov[q], s@),
            decreases out@.len() - p,
        {
            p = p + 1;
        }
        if p < out.len() && str_eq(out[p].as_str(), s.as_str()) {
            proof {
                assert(input.take(i + 1) =~= input.take(i as int).push(s@));
                assert(ov[p as int] == s@);
                assert(ov.contains(s@));
                input.take(i as int).lemma_push_to_set_commute(s@);
                assert(ov.to_set().contains(s@));
                assert(input.take(i + 1).to_set() =~= input.take(i as int).to_set());
            }
        } else {
            proof {
                assert forall|q: int| p <= q < ov.len() implies char_seq_lt(s@, #[trigger] ov[q]) by {
                    if q == p {
                        lemma_char_seq_lt_total(ov[q], s@);
                    } else {
                        lemma_char_seq_lt_total(ov[p as int], s@);
                        lemma_char_seq_lt_transitive(s@, ov[p as int], ov[q]);
                    }
                }
            }
            out.insert(p, s.clone());
            proof {
                let nv = string_views(out@);
                assert(nv =~= ov.insert(p as int, s@));
                assert forall|a: int, b: int| 0 <= a < b < nv.len() implies char_seq_lt(#[trigger] nv[a], #[trigger] nv[b]) by {
                    if b < p {
                    } else if b == p {
                    } else if a < p {
                        lemma_char_seq_lt_transitive(nv[a], s@, nv[b]);
                    } else if a == p {
                    } else {
                    }
                }
                assert(input.take(i + 1) =~= input.take(i as int).push(s@));
                assert forall|y: Seq<char>| nv.to_set().contains(y) <==> ov.to_set().insert(s@).contains(y) by {
                    if nv.contains(y) {
                        let k = choose|k: int| 0 <= k < nv.len() && nv[k] == y;
                        if k < p {
                            assert(ov[k] == y);
                        } else if k > p {
                            assert(ov[k - 1] == y);
                        }
                    }
                    if ov.contains(y) {
                        let k = choose|k: int| 0 <= k < ov.len() && ov[k] == y;
                        if k < p {
                            assert(nv[k] == y);
                        } else {
                            assert(nv[k + 1] == y);
                        }
                    }
                    if y == s@ {
                        assert(nv[p as int] == y);
                    }
                }
                assert(nv.to_set() =~= ov.to_set().insert(s@));
                input.take(i as int).lemma_push_to_set_commute(s@);
                assert(input.take(i + 1).to_set() =~= input.take(i as int).to_set().insert(s@));
            }
        }
        i = i + 1;
    }
    assert(input.take(i as int) =~= input);
    out
}


/// Net brace depth change of one character.
pub open spec fn brace_delta(c: char) -> int {
    if c == '{' { 1 } else if c == '}' { -1 } else { 0 }
}

/// Net brace depth of `s[a..b]`.
#[verifier::opaque]
pub open spec fn balance(s: Seq<char>, a: int, b: int) -> int
    decreases b - a,
{
    if b <= a { 0 } else { balance(s, a, b - 1) + brace_delta(s[b - 1]) }
}

proof fn lemma_balance_step(s: Seq<char>, a: int, b: int)
    requires
        a <= b,
    ensures
        balance(s, a, b + 1) == balance(s, a, b) + brace_delta(s[b]),
        balance(s, a, a) == 0,
{
    reveal(balance);
}

/// Position of the first `{`.
#[verifier::opaque]
pub open spec fn first_brace(s: Seq<char>) -> Option<int> {
    if exists|i: int| 0 <= i < s.len() && s[i] == '{' {
        Some(choose|i: int| 0 <= i < s.len() && s[i] == '{' && forall|j: int| 0 <= j < i ==> s[j] != '{')
    } else {
        None
    }
}

/// End (exclusive) of the balanced object that starts at `a`: the first
/// `e > a` where the braces of `s[a..e]` balance.
#[verifier::opaque]
pub open spec fn object_end(s: Seq<char>, a: int) -> Option<int> {
    if exists|e: int| a < e <= s.len() && balance(s, a, e) == 0 {
        Some(choose|e: int| a < e <= s.len() && balance(s, a, e) == 0 && forall|f: int| a < f < e ==> balance(s, a, f) != 0)
    } else {
        None
    }
}

/// What serde_json reports when `text` is not valid JSON (its error text);
/// `None` when it parses.
pub uninterp spec fn json_parse_error(text: Seq<char>) -> Option<Seq<char>>;

/// The string value of top-level field `key` when `text` parses to a JSON
/// object holding a string there; `None` otherwise.
pub uninterp spec fn json_string_field(text: Seq<char>, key: Seq<char>) -> Option<Seq<char>>;

/// When `text` parses to an object whose field `key` is an array: each
/// element's string value (`None` for a non-string element).
pub uninterp spec fn json_string_list_field(text: Seq<char>, key: Seq<char>) -> Option<Seq<Option<Seq<char>>>>;

/// Rust's `{:?}` rendering of a string (quoted, with escapes).
pub uninterp spec fn debug_quoted(s: Seq<char>) -> Seq<char>;

/// `serde_json::from_str::<serde_json::Value>`: the error text when `text` is
/// not valid JSON.
#[verifier::external_body]
fn json_error_text(text: &str) -> (r: Option<String>)
    ensures
        opt_seq(r) == json_parse_error(text@),
{
    serde_json::from_str::<serde_json::Value>(text).err().map(|e| e.to_string())
}

/// `serde_json::from_str::<serde_json::Value>` then `get(key)` and `as_str`.
#[verifier::external_body]
fn json_str_field(text: &str, key: &str) -> (r: Option<String>)
    ensures
        opt_seq(r) == json_string_field(text@, key@),
{
    let v: serde_json::Value = serde_json::from_str(text).ok()?;
    v.get(key).and_then(|f| f.as_str()).map(|s| s.to_string())
}

/// `serde_json::from_str::<serde_json::Value>` then `get(key)`, `as_array`,
/// and each element's `as_str`.
#[verifier::external_body]
fn json_str_list_field(text: &str, key: &str) -> (r: Option<Vec<Option<String>>>)
    ensures
        match r {
            Some(v) => json_string_list_field(text@, key@) == Some(v@.map_values(|o: Option<String>| opt_seq(o))),
            None => json_string_list_field(text@, key@) is None,
        },
{
    let v: serde_json::Value = serde_json::from_str(text).ok()?;
    let a = v.get(key)?.as_array()?;
    Some(a.iter().map(|e| e.as_str().map(|s| s.to_string())).collect())
}

/// `format!("{:?}", s)`.
#[verifier::external_body]
fn quote_debug(s: &str) -> (r: String)
    ensures
        r@ == debug_quoted(s@),
{
    format!("{:?}", s)
}

/// The fields of a reply object that a reflection is read from.
#[derive(Debug)]
pub struct ReflectionFields {
    pub kind: Option<String>,
    pub scene_id: Option<String>,
    pub rationale: Option<String>,
    pub yaml: Option<String>,
    pub reason: Option<String>,
    pub summary: Option<String>,
    pub top_features: Option<Vec<Option<String>>>,
}

/// Abstract reflection.
pub enum ReflectionView {
    MapsTo(Seq<char>, Seq<char>),
    Propose(Seq<char>, Seq<Seq<char>>),
    Unknown(Seq<char>, Seq<Seq<char>>),
}

pub open spec fn reflection_view(r: Reflection) -> ReflectionView {
    match r {
        Reflection::MapsTo { scene_id, rationale } => ReflectionView::MapsTo(scene_id@, rationale@),
        Reflection::Propose { yaml, examples } => ReflectionView::Propose(yaml@, string_views(examples@)),
        Reflection::Unknown { summary, top_features } => ReflectionView::Unknown(summary@, string_views(top_features@)),
    }
}

/// The present strings of a list, in order.
pub open spec fn present(s: Seq<Option<Seq<char>>>) -> Seq<Seq<char>>
    decreases s.len(),
{
    if s.len() == 0 {
        Seq::empty()
    } else {
        let rest = present(s.drop_last());
        match s.last() {
            Some(x) => rest.push(x),
            None => rest,
        }
    }
}

pub open spec fn or_default(o: Option<Seq<char>>, d: Seq<char>) -> Seq<char> {
    match o {
        Some(x) => x,
        None => d,
    }
}

/// Abstract reply fields.
pub struct FieldsView {
    pub kind: Option<Seq<char>>,
    pub scene_id: Option<Seq<char>>,
    pub rationale: Option<Seq<char>>,
    pub yaml: Option<Seq<char>>,
    pub reason: Option<Seq<char>>,
    pub summary: Option<Seq<char>>,
    pub top_features: Option<Seq<Option<Seq<char>>>>,
}

pub open spec fn fields_view(f: ReflectionFields) -> FieldsView {
    FieldsView {
        kind: opt_seq(f.kind),
        scene_id: opt_seq(f.scene_id),
        rationale: opt_seq(f.rationale),
        yaml: opt_seq(f.yaml),
        reason: opt_seq(f.reason),
        summary: opt_seq(f.summary),
        top_features: match f.top_features {
            Some(v) => Some(v@.map_values(|o: Option<String>| opt_seq(o))),
            None => None,
        },
    }
}

/// `r` is an `InvalidProposal` error with message `m`.
pub open spec fn invalid(r: Result<Reflection, ReflectError>, m: Seq<char>) -> bool {
    r matches Err(ReflectError::InvalidProposal(t)) && t@ == m
}

/// `r` is the success `v`.
pub open spec fn reflected(r: Result<Reflection, ReflectError>, v: ReflectionView) -> bool {
    r matches Ok(x) && reflection_view(x) == v
}

/// What a reply with fields `f` yields; `quoted` is the reply text as `{:?}`
/// writes it.
pub open spec fn reading_of(f: FieldsView, quoted: Seq<char>, r: Result<Reflection, ReflectError>) -> bool {
    match f.kind {
        None => invalid(r, "no 'kind' field in "@ + quoted),
        Some(k) => if k == "map"@ {
            match f.scene_id {
                None => invalid(r, "missing scene_id"@),
                Some(id) => reflected(r, ReflectionView::MapsTo(id, or_default(f.rationale, "(no rationale)"@))),
            }
        } else if k == "propose"@ {
            match f.yaml {
                None => invalid(r, "missing yaml"@),
                Some(y) => reflected(r, ReflectionView::Propose(y, seq![or_default(f.reason, "(no reason)"@)])),
            }
        } else if k == "unknown"@ {
            reflected(r, ReflectionView::Unknown(
                or_default(f.summary, "(no summary)"@),
                match f.top_features {
                    Some(l) => present(l),
                    None => Seq::empty(),
                },
            ))
        } else {
            invalid(r, "unknown kind '"@ + k + "'"@)
        }
    }
}

fn take_or(o: Option<String>, d: &str) -> (r: String)
    ensures
        r@ == or_default(opt_seq(o), d@),
{
    match o {
        Some(s) => s,
        None => d.to_owned(),
    }
}

fn present_strings(v: Vec<Option<String>>) -> (r: Vec<String>)
    ensures
        string_views(r@) == present(v@.map_values(|o: Option<String>| opt_seq(o))),
{
    let ghost ov = v@.map_values(|o: Option<String>| opt_seq(o));
    assert(ov.len() == v.len());
    let mut rest = v;
    let mut out: Vec<String> = Vec::new();
    let mut i: usize = 0;
    while rest.len() > 0
        invariant
            ov.len() == i + rest@.len(),
            ov.len() <= usize::MAX,
            forall|j: int| 0 <= j < rest@.len() ==> opt_seq(#[trigger] rest@[j]) == ov[i + j],
            string_views(out@) == present(ov.take(i as int)),
        decreases rest@.len(),
    {
        let item = rest.remove(0);
        assert(opt_seq(item) == ov[i as int]);
        assert(ov.take(i + 1).drop_last() =~= ov.take(i as int));
        match item {
            Some(s) => {
                out.push(s);
                assert(string_views(out@) =~= present(ov.take(i + 1)));
            },
            None => {
                assert(string_views(out@) =~= present(ov.take(i + 1)));
            },
        }
        i = i + 1;
    }
    assert(ov.take(i as int) =~= ov);
    out
}

fn one_string(s: String) -> (r: Vec<String>)
    ensures
        string_views(r@) == seq![s@],
{
    let mut r: Vec<String> = Vec::new();
    r.push(s);
    assert(string_views(r@) =~= seq![r@[0]@]);
    r
}

/// Read a reflection out of the fields of a reply object.
pub fn reflection_from_fields(f: ReflectionFields, quoted: &str) -> (r: Result<Reflection, ReflectError>)
    ensures
        reading_of(fields_view(f), quoted@, r),
{
    let ghost fv = fields_view(f);
    match f.kind {
        None => {
            let mut m = String::new();
            push_str(&mut m, "no 'kind' field in ");
            push_str(&mut m, quoted);
            Err(ReflectError::InvalidProposal(m))
        },
        Some(kind) => {
            if str_eq(kind.as_str(), "map") {
                match f.scene_id {
                    None => Err(ReflectError::InvalidProposal("missing scene_id".to_owned())),
                    Some(scene_id) => {
                        let rationale = take_or(f.rationale, "(no rationale)");
                        Ok(Reflection::MapsTo { scene_id, rationale })
                    },
                }
            } else if str_eq(kind.as_str(), "propose") {
                match f.yaml {
                    None => Err(ReflectError::InvalidProposal("missing yaml".to_owned())),
                    Some(yaml) => {
                        let reason = take_or(f.reason, "(no reason)");
                        Ok(Reflection::Propose { yaml, examples: one_string(reason) })
                    },
                }
            } else if str_eq(kind.as_str(), "unknown") {
                let summary = take_or(f.summary, "(no summary)");
                let top_features = match f.top_features {
                    Some(l) => present_strings(l),
                    None => {
                        let v: Vec<String> = Vec::new();
                        assert(string_views(v@) =~= Seq::<Seq<char>>::empty());
                        v
                    },
                };
                Ok(Reflection::Unknown { summary, top_features })
            } else {
                let mut m = String::new();
                push_str(&mut m, "unknown kind '");
                push_str(&mut m, kind.as_str());
                push_str(&mut m, "'");
                Err(ReflectError::InvalidProposal(m))
            }
        },
    }
}

/// The fields of the reply object `json`, as serde_json reads them.
pub open spec fn fields_of(json: Seq<char>) -> FieldsView {
    FieldsView {
        kind: json_string_field(json, "kind"@),
        scene_id: json_string_field(json, "scene_id"@),
        rationale: json_string_field(json, "rationale"@),
        yaml: json_string_field(json, "yaml"@),
        reason: json_string_field(json, "reason"@),
        summary: json_string_field(json, "summary"@),
        top_features: json_string_list_field(json, "top_features"@),
    }
}

/// What reading the JSON object text `json` yields.
#[verifier::opaque]
pub open spec fn json_reading(json: Seq<char>, r: Result<Reflection, ReflectError>) -> bool {
    parse_outcome(
        match json_parse_error(json) {
            Some(m) => Err(m),
            None => Ok(fields_of(json)),
        },
        debug_quoted(json),
        r,
    )
}

/// What parsing the model reply `raw` yields: the first `{...}` object in it
/// (braces balanced) is read as JSON and then as a reflection.
pub open spec fn parsed_reply(raw: Seq<char>, r: Result<Reflection, ReflectError>) -> bool {
    match first_brace(raw) {
        None => invalid(r, "no JSON object in: "@ + debug_quoted(raw)),
        Some(a) => match object_end(raw, a) {
            None => invalid(r, "unterminated JSON in: "@ + debug_quoted(raw)),
            Some(b) => json_reading(raw.subrange(a, b), r),
        },
    }
}

fn find_open_brace(v: &Vec<char>) -> (r: Option<usize>)
    ensures
        match r {
            Some(x) => first_brace(v@) == Some(x as int) && x < v@.len() && v@[x as int] == '{',
            None => first_brace(v@) is None,
        },
{
    let mut i: usize = 0;
    while i < v.len()
        invariant
            i <= v@.len(),
            forall|j: int| 0 <= j < i ==> v@[j] != '{',
        decreases v@.len() - i,
    {
        if v[i] == '{' {
            proof {
                reveal(first_brace);
                let k = choose|k: int| 0 <= k < v@.len() && v@[k] == '{' && forall|j: int| 0 <= j < k ==> v@[j] != '{';
                assert(k == i as int) by {
                    if k > i {
                        assert(v@[i as int] != '{');
                    }
                }
            }
            return Some(i);
        }
        i = i + 1;
    }
    proof {
        reveal(first_brace);
    }
    None
}

fn find_object_end(v: &Vec<char>, a: usize) -> (r: Option<usize>)
    requires
        a < v@.len(),
        v@[a as int] == '{',
    ensures
        match r {
            Some(b) => object_end(v@, a as int) == Some(b as int) && a < b <= v@.len(),
            None => object_end(v@, a as int) is None,
        },
{
    let mut depth: usize = 0;
    let mut i: usize = a;
    proof {
        lemma_balance_step(v@, a as int, a as int);
    }
    while i < v.len()
        invariant
            a <= i <= v@.len(),
            v@[a as int] == '{',
            depth == balance(v@, a as int, i as int),
            depth <= i - a,
            i > a ==> depth > 0,
            forall|f: int| a < f <= i ==> balance(v@, a as int, f) != 0,
        decreases v@.len() - i,
    {
        let c = v[i];
        proof {
            lemma_balance_step(v@, a as int, i as int);
        }
        if c == '{' {
            depth = depth + 1;
        } else if c == '}' {
            depth = depth - 1;
        }
        i = i + 1;
        if depth == 0 {
            proof {
                reveal(object_end);
                let k = choose|e: int| a < e <= v@.len() && balance(v@, a as int, e) == 0 && forall|f: int| a < f < e ==> balance(v@, a as int, f) != 0;
                assert(k == i as int) by {
                    if k < i {
                    } else if k > i {
                        assert(balance(v@, a as int, i as int) == 0);
                    }
                }
            }
            return Some(i);
        }
    }
    proof {
        reveal(object_end);
    }
    None
}

fn sub_chars(v: &Vec<char>, a: usize, b: usize) -> (r: Vec<char>)
    requires
        a <= b <= v@.len(),
    ensures
        r@ == v@.subrange(a as int, b as int),
{
    let mut r: Vec<char> = Vec::new();
    let mut i: usize = a;
    while i < b
        invariant
            a <= i <= b,
            b <= v@.len(),
            r@ == v@.subrange(a as int, i as int),
        decreases b - i,
    {
        r.push(v[i]);
        assert(v@.subrange(a as int, i + 1) =~= v@.subrange(a as int, i as int).push(v@[i as int]));
        i = i + 1;
    }
    r
}

/// Parse the first JSON object of a free-form model reply into a Reflection.
pub fn parse_reflection(raw: &str) -> (r: Result<Reflection, ReflectError>)
    ensures
        parsed_reply(raw@, r),
{
    let v = chars_of(raw);
    let a = match find_open_brace(&v) {
        None => {
            let mut m = String::new();
            push_str(&mut m, "no JSON object in: ");
            let q = quote_debug(raw);
            push_str(&mut m, q.as_str());
            return Err(ReflectError::InvalidProposal(m));
        },
        Some(a) => a,
    };
    let b = match find_object_end(&v, a) {
        None => {
            let mut m = String::new();
            push_str(&mut m, "unterminated JSON in: ");
            let q = quote_debug(raw);
            push_str(&mut m, q.as_str());
            return Err(ReflectError::InvalidProposal(m));
        },
        Some(b) => b,
    };
    let json_chars = sub_chars(&v, a, b);
    let json = string_from_chars(json_chars.as_slice());
    read_json_object(json.as_str())
}

/// Read a reflection out of the text of one JSON object.
pub fn read_json_object(json: &str) -> (r: Result<Reflection, ReflectError>)
    ensures
        json_reading(json@, r),
{
    reveal(json_reading);
    let quoted = quote_debug(json);
    match json_error_text(json) {
        Some(e) => reflection_from_parse(Err(e), quoted.as_str()),
        None => {
            let fields = ReflectionFields {
                kind: json_str_field(json, "kind"),
                scene_id: json_str_field(json, "scene_id"),
                rationale: json_str_field(json, "rationale"),
                yaml: json_str_field(json, "yaml"),
                reason: json_str_field(json, "reason"),
                summary: json_str_field(json, "summary"),
                top_features: json_str_list_field(json, "top_features"),
            };
            assert(fields_view(fields) == fields_of(json@));
            reflection_from_parse(Ok(fields), quoted.as_str())
        },
    }
}

/// What the outcome of parsing a reply object yields: its fields when it
/// parsed, else the parser's message; `quoted` is the object's text as `{:?}`
/// writes it.
pub open spec fn parse_outcome(outcome: Result<FieldsView, Seq<char>>, quoted: Seq<char>, r: Result<Reflection, ReflectError>) -> bool {
    match outcome {
        Err(m) => invalid(r, "JSON parse: "@ + m + " in "@ + quoted),
        Ok(f) => reading_of(f, quoted, r),
    }
}

/// Read a reflection out of the outcome of parsing a reply object.
pub fn reflection_from_parse(outcome: Result<ReflectionFields, String>, quoted: &str) -> (r: Result<Reflection, ReflectError>)
    ensures
        parse_outcome(
            match outcome {
                Ok(f) => Ok(fields_view(f)),
                Err(m) => Err(m@),
            },
            quoted@,
            r,
        ),
{
    match outcome {
        Err(e) => {
            let mut m = String::new();
            push_str(&mut m, "JSON parse: ");
            push_str(&mut m, e.as_str());
            push_str(&mut m, " in ");
            push_str(&mut m, quoted);
            Err(ReflectError::InvalidProposal(m))
        },
        Ok(fields) => reflection_from_fields(fields, quoted),
    }
}

/// `parts` joined with `sep` between neighbours.
pub open spec fn joined(parts: Seq<Seq<char>>, sep: Seq<char>) -> Seq<char>
    decreases parts.len(),
{
    if parts.len() == 0 {
        Seq::empty()
    } else if parts.len() == 1 {
        parts[0]
    } else {
        joined(parts.drop_last(), sep) + sep + parts.last()
    }
}

proof fn lemma_joined_step(parts: Seq<Seq<char>>, sep: Seq<char>, i: int)
    requires
        0 <= i < parts.len(),
    ensures
        joined(parts.take(i + 1), sep) == if i == 0 {
            parts[0]
        } else {
            joined(parts.take(i), sep) + sep + parts[i]
        },
{
    assert(parts.take(i + 1).drop_last() =~= parts.take(i));
}

/// A vector reading as a YAML block sequence: one `- x` line per component,
/// `[]` when empty.
pub open spec fn yaml_list_text(v: Seq<i64>) -> Seq<char>
    decreases v.len(),
{
    if v.len() == 0 {
        "[]\n"@
    } else if v.len() == 1 {
        "- "@ + fixed_text(v[0] as int) + "\n"@
    } else {
        yaml_list_text(v.drop_last()) + "- "@ + fixed_text(v.last() as int) + "\n"@
    }
}

/// How a reading is written into the prompt.
pub open spec fn value_prompt_text(v: FeatureValue) -> Seq<char> {
    match v {
        FeatureValue::F64(x) => fixed_text(x as int),
        FeatureValue::Bool(b) => if b { "true"@ } else { "false"@ },
        FeatureValue::Category(c) => "\""@ + c@ + "\""@,
        FeatureValue::Vector(x) => yaml_list_text(x@),
    }
}

fn push_yaml_list(s: &mut String, v: &Vec<i64>)
    ensures
        final(s)@ == old(s)@ + yaml_list_text(v@),
{
    if v.len() == 0 {
        push_str(s, "[]\n");
        return;
    }
    let ghost s0 = s@;
    let mut i: usize = 0;
    while i < v.len()
        invariant
            i <= v@.len(),
            v@.len() > 0,
            i == 0 ==> s@ == s0,
            i > 0 ==> s@ == s0 + yaml_list_text(v@.take(i as int)),
        decreases v@.len() - i,
    {
        push_str(s, "- ");
        push_fixed(s, v[i]);
        push_str(s, "\n");
        proof {
            let t = v@.take(i + 1);
            assert(t.drop_last() =~= v@.take(i as int));
            assert(t.last() == v@[i as int]);
            if i == 0 {
                assert(t.len() == 1);
            }
        }
        i = i + 1;
    }
    assert(v@.take(i as int) =~= v@);
}

/// Appends the prompt text of a reading.
pub fn push_value_text(s: &mut String, v: &FeatureValue)
    ensures
        final(s)@ == old(s)@ + value_prompt_text(*v),
{
    match v {
        FeatureValue::F64(x) => push_fixed(s, *x),
        FeatureValue::Bool(b) => {
            if *b {
                push_str(s, "true");
            } else {
                push_str(s, "false");
            }
        },
        FeatureValue::Category(c) => {
            let ghost s0 = s@;
            push_str(s, "\"");
            push_str(s, c.as_str());
            push_str(s, "\"");
            assert(s@ =~= s0 + value_prompt_text(*v));
        },
        FeatureValue::Vector(x) => push_yaml_list(s, x),
    }
}

/// The prompt line of one feature reading.
pub open spec fn feature_line(f: (String, FeatureValue)) -> Seq<char> {
    "  - "@ + f.0@ + ": "@ + value_prompt_text(f.1)
}

/// The user prompt for a case, given the known scene ids.
pub open spec fn user_prompt_text(scenes: Seq<Seq<char>>, features: Seq<(String, FeatureValue)>, reason: Seq<char>) -> Seq<char> {
    let scenes_block = if scenes.len() == 0 { "(none registered)"@ } else { joined(scenes, ", "@) };
    let features_block = joined(features.map_values(|f: (String, FeatureValue)| feature_line(f)), "\n"@);
    "Known scenes: "@ + scenes_block + "\nFeatures:\n"@ + features_block + "\nEscalation reason: "@ + reason
        + "\nRespond with ONE line of JSON."@
}

fn push_scenes_block(s: &mut String, scenes: &Vec<String>)
    ensures
        final(s)@ == old(s)@ + if scenes@.len() == 0 {
            "(none registered)"@
        } else {
            joined(string_views(scenes@), ", "@)
        },
{
    if scenes.len() == 0 {
        push_str(s, "(none registered)");
        return;
    }
    let ghost s0 = s@;
    let ghost parts = string_views(scenes@);
    let mut i: usize = 0;
    while i < scenes.len()
        invariant
            i <= scenes@.len(),
            parts == string_views(scenes@),
            s@ == s0 + joined(parts.take(i as int), ", "@),
        decreases scenes@.len() - i,
    {
        proof {
            lemma_joined_step(parts, ", "@, i as int);
        }
        if i > 0 {
            push_str(s, ", ");
        }
        push_str(s, scenes[i].as_str());
        assert(s@ =~= s0 + joined(parts.take(i + 1), ", "@));
        i = i + 1;
    }
    assert(parts.take(i as int) =~= parts);
}

fn push_features_block(s: &mut String, features: &Vec<(String, FeatureValue)>)
    ensures
        final(s)@ == old(s)@ + joined(features@.map_values(|f: (String, FeatureValue)| feature_line(f)), "\n"@),
{
    let ghost s0 = s@;
    let ghost parts = features@.map_values(|f: (String, FeatureValue)| feature_line(f));
    let mut i: usize = 0;
    while i < features.len()
        invariant
            i <= features@.len(),
            parts == features@.map_values(|f: (String, FeatureValue)| feature_line(f)),
            s@ == s0 + joined(parts.take(i as int), "\n"@),
        decreases features@.len() - i,
    {
        proof {
            lemma_joined_step(parts, "\n"@, i as int);
        }
        if i > 0 {
            push_str(s, "\n");
        }
        let ghost s1 = s@;
        push_str(s, "  - ");
        push_str(s, features[i].0.as_str());
        push_str(s, ": ");
        push_value_text(s, &features[i].1);
        assert(s@ =~= s1 + feature_line(features@[i as int]));
        assert(s@ =~= s0 + joined(parts.take(i + 1), "\n"@));
        i = i + 1;
    }
    assert(parts.take(i as int) =~= parts);
}

/// The user prompt for `case`: the known scenes, one line per reading, and
/// the escalation reason.
pub fn user_prompt(known_scenes: &Vec<String>, case: &PendingCase) -> (r: String)
    ensures
        r@ == user_prompt_text(string_views(known_scenes@), case.features@, case.reason@),
{
    let mut s = String::new();
    push_str(&mut s, "Known scenes: ");
    push_scenes_block(&mut s, known_scenes);
    push_str(&mut s, "\nFeatures:\n");
    push_features_block(&mut s, &case.features);
    push_str(&mut s, "\nEscalation reason: ");
    push_str(&mut s, case.reason.as_str());
    push_str(&mut s, "\nRespond with ONE line of JSON.");
    assert(s@ =~= user_prompt_text(string_views(known_scenes@), case.features@, case.reason@));
    s
}

/// The chat-template prompt the model is run on.
pub open spec fn chat_prompt_text(system: Seq<char>, user: Seq<char>) -> Seq<char> {
    "<|im_start|>system\n"@ + system + "<|im_end|>\n<|im_start|>user\n"@ + user
        + "<|im_end|>\n<|im_start|>assistant\n"@
}

/// Wrap the system and user messages in the model's chat template.
pub fn chat_prompt(system: &str, user: &str) -> (r: String)
    ensures
        r@ == chat_prompt_text(system@, user@),
{
    let mut s = String::new();
    push_str(&mut s, "<|im_start|>system\n");
    push_str(&mut s, system);
    push_str(&mut s, "<|im_end|>\n<|im_start|>user\n");
    push_str(&mut s, user);
    push_str(&mut s, "<|im_end|>\n<|im_start|>assistant\n");
    assert(s@ =~= chat_prompt_text(system@, user@));
    s
}

/// Whether a prompt of `n_tokens` tokens fits a context of `n_ctx` tokens
/// (the count is compared as a `u32`, as the model's API takes it); a
/// prompt that does not fit is a budget error.
pub fn check_prompt_fits(n_tokens: usize, n_ctx: u32) -> (r: Result<(), ReflectError>)
    ensures
        r is Ok <==> (n_tokens as u32) < n_ctx,
        r matches Err(e) ==> e matches ReflectError::Budget(m) && m@ == "prompt "@ + decimal(n_tokens as nat)
            + " tokens \u{2265} n_ctx "@ + decimal(n_ctx as nat),
{
    if (n_tokens as u32) >= n_ctx {
        let mut m = String::new();
        push_str(&mut m, "prompt ");
        push_decimal(&mut m, n_tokens as u64);
        push_str(&mut m, " tokens \u{2265} n_ctx ");
        push_decimal(&mut m, n_ctx as u64);
        Err(ReflectError::Budget(m))
    } else {
        Ok(())
    }
}

} // verus!
