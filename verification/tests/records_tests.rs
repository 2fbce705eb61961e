use perceptkit::cli::review::{status_filter, ReviewCmd};
use perceptkit::error::Error;
use perceptkit::queue::{pending_row, review_outcome, PendingStatus};
use perceptkit::signal::{Modality, Signal};
use perceptkit::trace::{is_whitespace, record_lines, trace_line_error, trim_chars, trim_text, JsonlTracer};

#[test]
fn status_names_round_trip() {
    for s in [PendingStatus::Pending, PendingStatus::Approved, PendingStatus::Rejected] {
        assert_eq!(PendingStatus::from_str(s.as_str()).unwrap(), s);
    }
    assert_eq!(PendingStatus::Approved.as_str(), "approved");
    match PendingStatus::from_str("done") {
        Err(Error::Config(m)) => assert_eq!(m, "unknown status 'done'"),
        other => panic!("unexpected {other:?}"),
    }
}

#[test]
fn review_of_missing_proposal_fails() {
    assert!(review_outcome(1, "p1").is_ok());
    match review_outcome(0, "nope") {
        Err(Error::Config(m)) => assert_eq!(m, "no pending proposal with id 'nope'"),
        other => panic!("unexpected {other:?}"),
    }
}

#[test]
fn rows_read_their_status() {
    let row = pending_row("p1".into(), 7, "{}".into(), "id: x\n".into(), "pending", None, None, None).unwrap();
    assert_eq!(row.id, "p1");
    assert_eq!(row.status, PendingStatus::Pending);
    assert!(pending_row("p1".into(), 7, "{}".into(), "y".into(), "weird", None, None, None).is_err());
}

#[test]
fn review_list_filter() {
    assert_eq!(status_filter(None).unwrap(), None);
    assert_eq!(status_filter(Some("rejected")).unwrap(), Some(PendingStatus::Rejected));
    assert!(status_filter(Some("other")).is_err());
    let cmd = ReviewCmd::Approve { id: "p1".into(), reviewer: "alice".into(), db: "./pending.db".into() };
    assert!(matches!(cmd, ReviewCmd::Approve { .. }));
}

#[test]
fn read_skips_empty_and_comments() {
    let lines = vec!["# comment".to_string(), "".to_string(), "{\"case_id\":\"c1\"}".to_string()];
    let recs = record_lines(&lines);
    assert_eq!(recs.len(), 1);
    assert_eq!(recs[0].0, 3);
    assert_eq!(recs[0].1, "{\"case_id\":\"c1\"}");
}

#[test]
fn trace_lines_are_trimmed_and_numbered() {
    let lines = vec!["  {\"a\":1}\t".to_string(), "   ".to_string(), "  # note".to_string(), "{}".to_string()];
    let recs = record_lines(&lines);
    assert_eq!(recs, vec![(1, "{\"a\":1}".to_string()), (4, "{}".to_string())]);
    assert_eq!(trim_text("\n x y \r\n"), "x y");
    assert_eq!(trim_text("   "), "");
    match trace_line_error(12, "bad") {
        Error::Config(m) => assert_eq!(m, "trace line 12: bad"),
        other => panic!("unexpected {other:?}"),
    }
}

#[test]
fn tracer_keeps_its_path() {
    let t = JsonlTracer::new("/tmp/traces.jsonl".into());
    assert_eq!(t.path(), "/tmp/traces.jsonl");
}

#[test]
fn signal_carries_its_stamp() {
    let s = Signal::at("test".into(), 42, Modality::Audio);
    assert_eq!(s.timestamp, 42);
    assert_eq!(s.modality, Modality::Audio);
    assert_eq!(Modality::Context.name(), "context");
    assert_eq!(Modality::Audio.name(), "audio");
}

#[test]
fn trim_by_marks() {
    let v: Vec<char> = "..ab.".chars().collect();
    let marks: Vec<bool> = v.iter().map(|c| *c == '.').collect();
    assert_eq!(trim_chars(&v, &marks), vec!['a', 'b']);
    let all: Vec<bool> = vec![true; v.len()];
    assert!(trim_chars(&v, &all).is_empty());
}

#[test]
fn whitespace_matches_std_on_every_char() {
    let mut n = 0;
    for u in 0u32..=0x10FFFF {
        if let Some(c) = char::from_u32(u) {
            assert_eq!(is_whitespace(c), c.is_whitespace(), "U+{:04X}", u);
            if is_whitespace(c) {
                n += 1;
            }
        }
    }
    assert_eq!(n, 25);
}
