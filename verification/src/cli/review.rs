//! `review list / approve / reject` — the human-in-the-loop gate over the
//! pending-scene queue.

use vstd::prelude::*;

use crate::error::Error;
use crate::queue::{status_name, PendingStatus};

verus! {

/// A review subcommand.
#[derive(Debug)]
pub enum ReviewCmd {
    /// List pending/approved/rejected proposals.
    List {
        /// SQLite db path.
        db: String,
        /// Filter by status.
        status: Option<String>,
    },
    /// Approve a proposal.
    Approve {
        /// Proposal id.
        id: String,
        /// Id of the deciding user.
        reviewer: String,
        /// SQLite db path.
        db: String,
    },
    /// Reject a proposal with reason.
    Reject {
        /// Proposal id.
        id: String,
        /// Id of the deciding user.
        reviewer: String,
        /// Reason for rejection.
        reason: String,
        /// SQLite db path.
        db: String,
    },
}

/// The status filter of `review list`: none, or the named status.
pub fn status_filter(status: Option<&str>) -> (r: Result<Option<PendingStatus>, Error>)
    ensures
        match status {
            None => r == Ok::<Option<PendingStatus>, Error>(None),
            Some(s) => match r {
                Ok(Some(st)) => status_name(st) == s@,
                Ok(None) => false,
                Err(e) => (forall|st: PendingStatus| status_name(st) != s@)
                    && (e matches Error::Config(m) && m@ == "unknown status '"@ + s@ + "'"@),
            },
        },
{
    match status {
        None => Ok(None),
        Some(s) => match PendingStatus::from_str(s) {
            Ok(st) => Ok(Some(st)),
            Err(e) => Err(e),
        },
    }
}

} // verus!
