//! ReflectionTrace — the replayable JSONL audit trail of reflector calls:
//! the record, the tracer's identity, and which lines of a trace file hold
//! records. Writing and parsing the JSON sits with the runtime.

use vstd::prelude::*;

use crate::error::Error;
use crate::reflector::Reflection;
use crate::text::{decimal, push_decimal, push_str};

verus! {

/// One audit record per reflector call.
#[derive(Debug)]
pub struct ReflectionTrace {
    /// When the reflection was logged (unix microseconds).
    pub logged_at: i64,
    /// Case id of the pending case that triggered reflection.
    pub case_id: String,
    /// Bundle timestamp (unix microseconds; not the log time).
    pub bundle_timestamp: i64,
    /// Reflector backend name (e.g. "noop", "mock", "local").
    pub reflector_name: String,
    /// Stable reflector fingerprint (for snapshot comparison).
    pub reflector_fingerprint: String,
    /// Input feature summary (key, display string).
    pub input_features: Vec<(String, String)>,
    /// Why the hot path escalated.
    pub escalation_reason: String,
    /// Output reflection.
    pub output: Reflection,
    /// Wall-clock duration of the reflect call in milliseconds.
    pub duration_ms: u64,
}

/// A tracer that appends one JSON record per line to a file.
#[derive(Debug)]
pub struct JsonlTracer {
    path: String,
}

impl JsonlTracer {
    /// A tracer writing to `path` (created if missing, appended if it exists).
    pub fn new(path: String) -> (r: Self)
        ensures
            r.path_spec() == path@,
    {
        JsonlTracer { path }
    }

    /// The file the tracer writes to.
    pub closed spec fn path_spec(&self) -> Seq<char> {
        self.path@
    }

    /// Underlying path.
    pub fn path(&self) -> (r: &str)
        ensures
            r@ == self.path_spec(),
    {
        self.path.as_str()
    }
}

/// Whether `c` has the Unicode `White_Space` property: the tab through
/// carriage-return controls, space, next line, no-break space, ogham space
/// mark, the en quad through hair space, the line and paragraph separators,
/// narrow no-break space, medium mathematical space and ideographic space.
pub open spec fn unicode_whitespace(c: char) -> bool {
    let u = c as u32;
    ||| 0x9 <= u <= 0xD
    ||| u == 0x20
    ||| u == 0x85
    ||| u == 0xA0
    ||| u == 0x1680
    ||| 0x2000 <= u <= 0x200A
    ||| u == 0x2028
    ||| u == 0x2029
    ||| u == 0x202F
    ||| u == 0x205F
    ||| u == 0x3000
}

/// Whether `c` is whitespace, as `char::is_whitespace` decides it.
pub fn is_whitespace(c: char) -> (r: bool)
    ensures
        r == unicode_whitespace(c),
{
    let u: u32 = c as u32;
    (0x9 <= u && u <= 0xD) || u == 0x20 || u == 0x85 || u == 0xA0 || u == 0x1680 || (0x2000 <= u
        && u <= 0x200A) || u == 0x2028 || u == 0x2029 || u == 0x202F || u == 0x205F || u == 0x3000
}

/// Number of marked positions at the start of `ws`.
pub open spec fn leading_marked(ws: Seq<bool>) -> nat
    decreases ws.len(),
{
    if ws.len() > 0 && ws[0] {
        1 + leading_marked(ws.drop_first())
    } else {
        0
    }
}

/// Number of marked positions at the end of `ws`.
pub open spec fn trailing_marked(ws: Seq<bool>) -> nat
    decreases ws.len(),
{
    if ws.len() > 0 && ws.last() {
        1 + trailing_marked(ws.drop_last())
    } else {
        0
    }
}

/// `s` without its marked (`ws`) prefix and suffix.
pub open spec fn trim_marked(s: Seq<char>, ws: Seq<bool>) -> Seq<char> {
    if leading_marked(ws) >= s.len() {
        Seq::empty()
    } else {
        s.subrange(leading_marked(ws) as int, s.len() - trailing_marked(ws))
    }
}

/// Which characters of `s` are whitespace.
pub open spec fn ws_flags(s: Seq<char>) -> Seq<bool> {
    s.map_values(|c: char| unicode_whitespace(c))
}

/// `s` without leading and trailing whitespace (what `str::trim` gives).
pub open spec fn trimmed(s: Seq<char>) -> Seq<char> {
    trim_marked(s, ws_flags(s))
}

/// The record text a trace-file line holds: its trimmed text, unless that is
/// empty or a `#` comment.
pub open spec fn record_text(line: Seq<char>) -> Option<Seq<char>> {
    let t = trimmed(line);
    if t.len() == 0 || t[0] == '#' {
        None
    } else {
        Some(t)
    }
}

/// The records of a trace file's lines, each with its 1-based line number.
pub open spec fn trace_records(lines: Seq<Seq<char>>) -> Seq<(nat, Seq<char>)>
    decreases lines.len(),
{
    if lines.len() == 0 {
        Seq::empty()
    } else {
        let rest = trace_records(lines.drop_last());
        match record_text(lines.last()) {
            Some(t) => rest.push((lines.len(), t)),
            None => rest,
        }
    }
}

proof fn lemma_leading_bound(ws: Seq<bool>)
    ensures
        leading_marked(ws) <= ws.len(),
        forall|i: int| 0 <= i < leading_marked(ws) ==> #[trigger] ws[i],
        leading_marked(ws) < ws.len() ==> !ws[leading_marked(ws) as int],
    decreases ws.len(),
{
    if ws.len() > 0 && ws[0] {
        lemma_leading_bound(ws.drop_first());
        assert forall|i: int| 0 <= i < leading_marked(ws) implies #[trigger] ws[i] by {
            if i > 0 {
                assert(ws[i] == ws.drop_first()[i - 1]);
            }
        }
    }
}

proof fn lemma_trailing_bound(ws: Seq<bool>)
    ensures
        trailing_marked(ws) <= ws.len(),
        forall|i: int| ws.len() - trailing_marked(ws) <= i < ws.len() ==> #[trigger] ws[i],
        trailing_marked(ws) < ws.len() ==> !ws[ws.len() - 1 - trailing_marked(ws)],
    decreases ws.len(),
{
    if ws.len() > 0 && ws.last() {
        lemma_trailing_bound(ws.drop_last());
        assert forall|i: int| ws.len() - trailing_marked(ws) <= i < ws.len() implies #[trigger] ws[i] by {
            if i < ws.len() - 1 {
                assert(ws[i] == ws.drop_last()[i]);
            }
        }
    }
}

/// `v` without its marked prefix and suffix, where `ws` marks (for example)
/// the whitespace characters of `v`.
pub fn trim_chars(v: &Vec<char>, ws: &Vec<bool>) -> (r: Vec<char>)
    requires
        v@.len() == ws@.len(),
    ensures
        r@ == trim_marked(v@, ws@),
{
    proof {
        lemma_leading_bound(ws@);
        lemma_trailing_bound(ws@);
    }
    let mut lo: usize = 0;
    while lo < ws.len() && ws[lo]
        invariant
            lo <= ws@.len(),
            lo <= leading_marked(ws@),
            leading_marked(ws@) <= ws@.len(),
            leading_marked(ws@) < ws@.len() ==> !ws@[leading_marked(ws@) as int],
            forall|j: int| 0 <= j < leading_marked(ws@) ==> #[trigger] ws@[j],
        decreases ws@.len() - lo,
    {
        lo = lo + 1;
    }
    if lo >= v.len() {
        return Vec::new();
    }
    let mut gap: usize = 0;
    while gap < ws.len() && ws[ws.len() - 1 - gap]
        invariant
            gap <= ws@.len(),
            gap <= trailing_marked(ws@),
            trailing_marked(ws@) <= ws@.len(),
            trailing_marked(ws@) < ws@.len() ==> !ws@[ws@.len() - 1 - trailing_marked(ws@)],
            forall|j: int| ws@.len() - trailing_marked(ws@) <= j < ws@.len() ==> #[trigger] ws@[j],
        decreases ws@.len() - gap,
    {
        gap = gap + 1;
    }
    let hi = v.len() - gap;
    assert(lo < hi) by {
        if lo >= hi {
            assert(ws@[lo as int]);
        }
    }
    let mut out: Vec<char> = Vec::new();
    let mut i: usize = lo;
    while i < hi
        invariant
            lo <= i <= hi,
            hi <= v@.len(),
            out@ == v@.subrange(lo as int, i as int),
        decreases hi - i,
    {
        out.push(v[i]);
        assert(v@.subrange(lo as int, i + 1) =~= v@.subrange(lo as int, i as int).push(v@[i as int]));
        i = i + 1;
    }
    out
}

/// The trimmed text of `s`.
pub fn trim_text(s: &str) -> (r: String)
    ensures
        r@ == trimmed(s@),
{
    let v = crate::text::chars_of(s);
    let mut ws: Vec<bool> = Vec::new();
    let mut i: usize = 0;
    while i < v.len()
        invariant
            i <= v@.len(),
            ws@ == ws_flags(v@).take(i as int),
        decreases v@.len() - i,
    {
        ws.push(is_whitespace(v[i]));
        assert(ws_flags(v@).take(i + 1) =~= ws_flags(v@).take(i as int).push(unicode_whitespace(v@[i as int])));
        i = i + 1;
    }
    assert(ws_flags(v@).take(i as int) =~= ws_flags(v@));
    let t = trim_chars(&v, &ws);
    crate::text::string_from_chars(t.as_slice())
}

/// The record lines of a trace file: each line that is not blank or a `#`
/// comment, trimmed, with its 1-based line number.
pub fn record_lines(lines: &Vec<String>) -> (r: Vec<(usize, String)>)
    ensures
        r@.len() == trace_records(lines@.map_values(|l: String| l@)).len(),
        forall|i: int| 0 <= i < r@.len() ==> (#[trigger] r@[i]).0 as nat == trace_records(lines@.map_values(|l: String| l@))[i].0
            && r@[i].1@ == trace_records(lines@.map_values(|l: String| l@))[i].1,
{
    let ghost ls = lines@.map_values(|l: String| l@);
    let mut out: Vec<(usize, String)> = Vec::new();
    let mut i: usize = 0;
    while i < lines.len()
        invariant
            ls == lines@.map_values(|l: String| l@),
            i <= lines@.len(),
            out@.len() == trace_records(ls.take(i as int)).len(),
            forall|j: int| 0 <= j < out@.len() ==> (#[trigger] out@[j]).0 as nat == trace_records(ls.take(i as int))[j].0
                && out@[j].1@ == trace_records(ls.take(i as int))[j].1,
        decreases lines@.len() - i,
    {
        let t = trim_text(lines[i].as_str());
        proof {
            assert(ls.take(i + 1).drop_last() =~= ls.take(i as int));
            assert(ls.take(i + 1).last() == lines@[i as int]@);
        }
        let empty = t.as_str().is_empty();
        let is_comment = !empty && t.as_str().get_char(0) == '#';
        if !empty && !is_comment {
            out.push((i + 1, t));
        }
        i = i + 1;
    }
    assert(ls.take(i as int) =~= ls);
    out
}

/// The error for a trace line that does not parse.
pub fn trace_line_error(line_no: usize, message: &str) -> (r: Error)
    ensures
        r matches Error::Config(m) && m@ == "trace line "@ + decimal(line_no as nat) + ": "@ + message@,
{
    let mut m = String::new();
    push_str(&mut m, "trace line ");
    push_decimal(&mut m, line_no as u64);
    push_str(&mut m, ": ");
    push_str(&mut m, message);
    Error::Config(m)
}

} // verus!
