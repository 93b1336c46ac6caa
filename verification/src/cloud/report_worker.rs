//! The report worker's decisions.
//!
//! The worker loop outside the library receives a report id, loads its
//! task, syncs every account to one frozen pool index and collects their
//! balances; how each round settles the task row is decided here.

use vstd::prelude::*;

use crate::cloud::types::{Report, ReportStatus, ReportTask};

verus! {

/// What the worker should do after one report round: persist `update` if
/// present, and acknowledge the queue message if `delete`.
#[derive(Clone, Debug, PartialEq, Eq)]
pub struct ReportProcessResult {
    pub delete: bool,
    pub update: Option<ReportTask>,
}

impl ReportProcessResult {
    /// The fleet was collected: the task completes with its report and the
    /// message is acknowledged.
    pub fn success(task: ReportTask, report: Report) -> (r: ReportProcessResult)
        ensures
            r.delete,
            r.update matches Some(t) && t == (ReportTask {
                status: ReportStatus::Completed,
                report: Some(report),
                ..task
            }),
    {
        ReportProcessResult {
            delete: true,
            update: Some(
                ReportTask { status: ReportStatus::Completed, report: Some(report), ..task },
            ),
        }
    }

    /// Acknowledge the message without touching the task.
    pub fn delete_from_queue() -> (r: ReportProcessResult)
        ensures
            r.delete,
            r.update is None,
    {
        ReportProcessResult { delete: true, update: None }
    }

    /// A retryable failure: while attempts remain, count one and leave the
    /// message for re-delivery; beyond the budget the task fails.
    pub fn error_with_retry_attempts(task: ReportTask, max_attempts: u32) -> (r:
        ReportProcessResult)
        ensures
            task.attempt >= max_attempts ==> ({
                &&& r.delete
                &&& r.update matches Some(t) && t == (ReportTask {
                    status: ReportStatus::Failed,
                    ..task
                })
            }),
            task.attempt < max_attempts ==> ({
                &&& !r.delete
                &&& r.update matches Some(t) && t == (ReportTask {
                    attempt: (task.attempt + 1) as u32,
                    ..task
                })
            }),
    {
        if task.attempt >= max_attempts {
            return ReportProcessResult {
                delete: true,
                update: Some(ReportTask { status: ReportStatus::Failed, ..task }),
            };
        }
        let attempt = task.attempt + 1;
        ReportProcessResult { delete: false, update: Some(ReportTask { attempt, ..task }) }
    }
}

} // verus!
