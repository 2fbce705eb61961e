//! The pending-scene queue's records and review rules. Scenes proposed by a
//! reflector wait there for human review; they are never committed on their
//! own. The SQLite store itself sits with the runtime.

use vstd::prelude::*;

use crate::error::Error;
use crate::text::push_str;

verus! {

/// Status of a pending proposal.
#[derive(Debug, Clone, Copy, PartialEq, Eq, Structural)]
pub enum PendingStatus {
    /// Awaiting human review.
    Pending,
    /// Approved: the scene YAML is written; the entry is kept for audit.
    Approved,
    /// Rejected: the entry is kept for audit and learning.
    Rejected,
}

/// The stored name of a status.
pub open spec fn status_name(s: PendingStatus) -> Seq<char> {
    match s {
        PendingStatus::Pending => "pending"@,
        PendingStatus::Approved => "approved"@,
        PendingStatus::Rejected => "rejected"@,
    }
}

/// Reading back a stored status name gives the status that was stored:
/// distinct statuses have distinct names.
pub proof fn lemma_status_round_trip(a: PendingStatus, b: PendingStatus)
    ensures
        status_name(a) == status_name(b) ==> a == b,
{
    reveal_strlit("pending");
    reveal_strlit("approved");
    reveal_strlit("rejected");
    if status_name(a) == status_name(b) {
        assert(status_name(a).len() == status_name(b).len());
        assert(status_name(a)[0] == status_name(b)[0]);
    }
}

impl PendingStatus {
    /// The stored name of the status.
    pub fn as_str(self) -> (r: &'static str)
        ensures
            r@ == status_name(self),
    {
        match self {
            PendingStatus::Pending => "pending",
            PendingStatus::Approved => "approved",
            PendingStatus::Rejected => "rejected",
        }
    }

    /// Read a stored status name.
    pub fn from_str(s: &str) -> (r: Result<PendingStatus, Error>)
        ensures
            match r {
                Ok(st) => status_name(st) == s@,
                Err(e) => (forall|st: PendingStatus| status_name(st) != s@)
                    && (e matches Error::Config(m) && m@ == "unknown status '"@ + s@ + "'"@),
            },
    {
        if crate::text::str_eq(s, "pending") {
            Ok(PendingStatus::Pending)
        } else if crate::text::str_eq(s, "approved") {
            Ok(PendingStatus::Approved)
        } else if crate::text::str_eq(s, "rejected") {
            Ok(PendingStatus::Rejected)
        } else {
            proof {
                assert forall|st: PendingStatus| status_name(st) != s@ by {
                    match st {
                        PendingStatus::Pending => {},
                        PendingStatus::Approved => {},
                        PendingStatus::Rejected => {},
                    }
                }
            }
            let mut m = String::new();
            push_str(&mut m, "unknown status '");
            push_str(&mut m, s);
            push_str(&mut m, "'");
            Err(Error::Config(m))
        }
    }
}

/// A row of the pending queue.
#[derive(Debug)]
pub struct PendingRow {
    /// Proposal id.
    pub id: String,
    /// Creation time (unix microseconds).
    pub created_at: i64,
    /// Original pending case (JSON-serialized).
    pub case_json: String,
    /// Proposed scene YAML.
    pub yaml: String,
    /// Current status.
    pub status: PendingStatus,
    /// Id of the user who decided, once decided.
    pub reviewer: Option<String>,
    /// Review time (unix microseconds).
    pub reviewed_at: Option<i64>,
    /// Reject reason (if rejected).
    pub reject_reason: Option<String>,
}

/// Build a row from the stored columns; the status column must hold a
/// status name.
pub fn pending_row(
    id: String,
    created_at: i64,
    case_json: String,
    yaml: String,
    status: &str,
    reviewer: Option<String>,
    reviewed_at: Option<i64>,
    reject_reason: Option<String>,
) -> (r: Result<PendingRow, Error>)
    ensures
        match r {
            Ok(row) => status_name(row.status) == status@ && row.id == id && row.created_at == created_at
                && row.case_json == case_json && row.yaml == yaml && row.reviewer == reviewer
                && row.reviewed_at == reviewed_at && row.reject_reason == reject_reason,
            Err(e) => (forall|st: PendingStatus| status_name(st) != status@)
                && (e matches Error::Config(m) && m@ == "unknown status '"@ + status@ + "'"@),
        },
{
    match PendingStatus::from_str(status) {
        Ok(st) => Ok(PendingRow { id, created_at, case_json, yaml, status: st, reviewer, reviewed_at, reject_reason }),
        Err(e) => Err(e),
    }
}

/// Outcome of a review update that changed `updated` rows: only a proposal
/// still pending can be reviewed, so no changed row means no such proposal.
pub fn review_outcome(updated: usize, id: &str) -> (r: Result<(), Error>)
    ensures
        updated > 0 <==> r is Ok,
        r matches Err(e) ==> e matches Error::Config(m) && m@ == "no pending proposal with id '"@ + id@ + "'"@,
{
    if updated == 0 {
        let mut m = String::new();
        push_str(&mut m, "no pending proposal with id '");
        push_str(&mut m, id);
        push_str(&mut m, "'");
        Err(Error::Config(m))
    } else {
        Ok(())
    }
}

} // verus!
