//! The submit worker's decisions.
//!
//! The worker loop itself lives outside the library: it receives a part id
//! from the submit queue, loads the part, looks up its predecessor where
//! one is named, builds and proves the transfer, and submits it to the
//! relayer. Every decision along that path — what to do with the loaded
//! part, how to gate on the predecessor, and how to record the submission
//! outcome — is taken here, so that ordering, idempotence and the status
//! machine are verified.

use vstd::prelude::*;

use crate::cloud::types::{status_advances, TransferPart, TransferStatus};
use crate::errors::CloudError;
use crate::helpers::uuid::is_uuid_str;

verus! {

/// What the worker should do after processing one submit message: persist
/// `update` if present, enqueue the part for status checking if
/// `check_status`, and acknowledge (delete) the queue message if `delete`.
#[derive(Clone, Debug, PartialEq, Eq)]
pub struct ProcessResult {
    pub delete: bool,
    pub check_status: bool,
    pub update: Option<TransferPart>,
}

impl ProcessResult {
    /// The part was submitted: it enters `Relaying` under its job id, its
    /// retry budget resets, and the message is acknowledged.
    pub fn success(part: TransferPart, job_id: String, now: u64) -> (r: ProcessResult)
        requires
            part.status == TransferStatus::New,
        ensures
            r.delete,
            r.check_status,
            r.update matches Some(p) && p == (TransferPart {
                status: TransferStatus::Relaying,
                job_id: Some(job_id),
                attempt: 0,
                timestamp: now,
                ..part
            }),
            r.update matches Some(p) && status_advances(part.status, p.status),
    {
        ProcessResult {
            delete: true,
            check_status: true,
            update: Some(
                TransferPart {
                    status: TransferStatus::Relaying,
                    job_id: Some(job_id),
                    attempt: 0,
                    timestamp: now,
                    ..part
                },
            ),
        }
    }

    /// Leave the message alone; its visibility timeout will re-deliver it.
    pub fn retry_later() -> (r: ProcessResult)
        ensures
            !r.delete,
            !r.check_status,
            r.update is None,
    {
        ProcessResult { delete: false, check_status: false, update: None }
    }

    /// Acknowledge the message without touching the part.
    pub fn delete_from_queue() -> (r: ProcessResult)
        ensures
            r.delete,
            !r.check_status,
            r.update is None,
    {
        ProcessResult { delete: true, check_status: false, update: None }
    }

    /// Acknowledge the message and hand the part to the status queue.
    pub fn repeat_check_status() -> (r: ProcessResult)
        ensures
            r.delete,
            r.check_status,
            r.update is None,
    {
        ProcessResult { delete: true, check_status: true, update: None }
    }

    /// A retryable failure: while attempts remain, count one and leave the
    /// message for re-delivery; otherwise the part fails for good.
    pub fn error_with_retry_attempts(
        part: TransferPart,
        err: CloudError,
        max_attempts: u32,
        now: u64,
    ) -> (r: ProcessResult)
        requires
            !part.status.is_final_spec(),
        ensures
            part.attempt >= max_attempts ==> r == Self::error_without_retry_spec(part, err, now),
            part.attempt < max_attempts ==> !r.delete && !r.check_status && r.update
                == Some(TransferPart { attempt: (part.attempt + 1) as u32, ..part }),
            r.update matches Some(p) ==> status_advances(part.status, p.status),
    {
        if part.attempt >= max_attempts {
            return ProcessResult::error_without_retry(part, err, now);
        }
        let attempt = part.attempt + 1;
        ProcessResult { delete: false, check_status: false, update: Some(TransferPart { attempt, ..part }) }
    }

    /// The shape of a terminal failure.
    pub open spec fn error_without_retry_spec(
        part: TransferPart,
        err: CloudError,
        now: u64,
    ) -> ProcessResult {
        ProcessResult {
            delete: true,
            check_status: false,
            update: Some(
                TransferPart {
                    status: TransferStatus::Failed(err),
                    timestamp: now,
                    ..part
                },
            ),
        }
    }

    /// A terminal failure: the part fails with the given reason and the
    /// message is acknowledged.
    pub fn error_without_retry(part: TransferPart, err: CloudError, now: u64) -> (r: ProcessResult)
        requires
            !part.status.is_final_spec(),
        ensures
            r == Self::error_without_retry_spec(part, err, now),
            r.update matches Some(p) && status_advances(part.status, p.status),
    {
        ProcessResult {
            delete: true,
            check_status: false,
            update: Some(
                TransferPart { status: TransferStatus::Failed(err), timestamp: now, ..part },
            ),
        }
    }
}

/// What the early checks of one submit round decided: either the part is
/// ready to be built, proved and submitted, or the round finishes now with
/// the given outcome.
#[derive(Clone, Debug, PartialEq, Eq)]
pub enum SendPreflight {
    Ready(TransferPart),
    Finish(ProcessResult),
}

/// The early checks of the submit worker, before any expensive work.
///
/// Re-delivery of a settled message changes nothing: whenever the loaded
/// part already carries a terminal status, the result is an
/// acknowledgement with no part update. A part whose predecessor is not
/// yet `Mining` or `Done` is postponed without any state change, so a part
/// never advances past `New` while its predecessor is still `New` or
/// `Relaying`.
pub fn send_preflight(
    part: Result<TransferPart, CloudError>,
    predecessor: Option<Result<TransferStatus, CloudError>>,
    max_attempts: u32,
    now: u64,
) -> (r: SendPreflight)
    requires
        part matches Ok(p) && p.status == TransferStatus::New && p.depends_on is Some
            ==> predecessor is Some,
    ensures
        part is Err ==> r == SendPreflight::Finish(ProcessResult {
            delete: true,
            check_status: false,
            update: None,
        }),
        part matches Ok(p) ==> ((p.status == TransferStatus::Relaying || p.status
            == TransferStatus::Mining) ==> r == SendPreflight::Finish(ProcessResult {
            delete: true,
            check_status: true,
            update: None,
        })),
        part matches Ok(p) ==> (p.status.is_final_spec() ==> r == SendPreflight::Finish(
            ProcessResult { delete: true, check_status: false, update: None },
        )),
        part matches Ok(p) ==> (p.status == TransferStatus::Proving ==> r == SendPreflight::Finish(
            ProcessResult { delete: true, check_status: false, update: None },
        )),
        part matches Ok(p) ==> (p.status == TransferStatus::New ==> match p.depends_on {
            None => r == if is_uuid_str(p.account_id@) {
                SendPreflight::Ready(p)
            } else {
                SendPreflight::Finish(
                    ProcessResult::error_without_retry_spec(
                        p,
                        CloudError::IncorrectAccountId,
                        now,
                    ),
                )
            },
            Some(_) => match predecessor.unwrap() {
                Ok(TransferStatus::Mining) | Ok(TransferStatus::Done) => r == if is_uuid_str(
                    p.account_id@,
                ) {
                    SendPreflight::Ready(p)
                } else {
                    SendPreflight::Finish(
                        ProcessResult::error_without_retry_spec(
                            p,
                            CloudError::IncorrectAccountId,
                            now,
                        ),
                    )
                },
                Ok(s) => if s.is_failed() {
                    r == SendPreflight::Finish(
                        ProcessResult::error_without_retry_spec(
                            p,
                            CloudError::PreviousTxFailed,
                            now,
                        ),
                    )
                } else {
                    r == SendPreflight::Finish(
                        ProcessResult { delete: false, check_status: false, update: None },
                    )
                },
                Err(e) => ({
                    &&& p.attempt >= max_attempts ==> r == SendPreflight::Finish(
                        ProcessResult::error_without_retry_spec(p, e, now),
                    )
                    &&& p.attempt < max_attempts ==> r == SendPreflight::Finish(
                        ProcessResult {
                            delete: false,
                            check_status: false,
                            update: Some(
                                TransferPart { attempt: (p.attempt + 1) as u32, ..p },
                            ),
                        },
                    )
                }),
            },
        }),
{
    let part = match part {
        Ok(part) => part,
        Err(_) => {
            return SendPreflight::Finish(ProcessResult::delete_from_queue());
        },
    };

    match &part.status {
        TransferStatus::New => {},
        TransferStatus::Relaying | TransferStatus::Mining => {
            return SendPreflight::Finish(ProcessResult::repeat_check_status());
        },
        _ => {
            return SendPreflight::Finish(ProcessResult::delete_from_queue());
        },
    }

    if part.depends_on.is_some() {
        match predecessor {
            Some(Ok(TransferStatus::Mining)) | Some(Ok(TransferStatus::Done)) => {},
            Some(Ok(TransferStatus::Failed(_))) => {
                return SendPreflight::Finish(
                    ProcessResult::error_without_retry(part, CloudError::PreviousTxFailed, now),
                );
            },
            Some(Ok(_)) => {
                return SendPreflight::Finish(ProcessResult::retry_later());
            },
            Some(Err(e)) => {
                return SendPreflight::Finish(
                    ProcessResult::error_with_retry_attempts(part, e, max_attempts, now),
                );
            },
            None => {
                return SendPreflight::Finish(ProcessResult::retry_later());
            },
        }
    }

    if !crate::helpers::uuid::is_valid_uuid(part.account_id.as_str()) {
        return SendPreflight::Finish(
            ProcessResult::error_without_retry(part, CloudError::IncorrectAccountId, now),
        );
    }

    SendPreflight::Ready(part)
}

/// Records the outcome of building, proving and submitting one part: a
/// relayer job id moves it to `Relaying`; any failure is retried within
/// the attempt budget and terminal beyond it.
pub fn send_submit_outcome(
    part: TransferPart,
    outcome: Result<String, CloudError>,
    max_attempts: u32,
    now: u64,
) -> (r: ProcessResult)
    requires
        part.status == TransferStatus::New,
    ensures
        outcome matches Ok(job_id) ==> r.delete && r.check_status && r.update == Some(
            TransferPart {
                status: TransferStatus::Relaying,
                job_id: Some(job_id),
                attempt: 0,
                timestamp: now,
                ..part
            },
        ),
        outcome matches Err(e) ==> ({
            &&& part.attempt >= max_attempts ==> r == ProcessResult::error_without_retry_spec(
                part,
                e,
                now,
            )
            &&& part.attempt < max_attempts ==> !r.delete && !r.check_status && r.update == Some(
                TransferPart { attempt: (part.attempt + 1) as u32, ..part },
            )
        }),
        r.update matches Some(p) ==> status_advances(part.status, p.status),
{
    match outcome {
        Ok(job_id) => ProcessResult::success(part, job_id, now),
        Err(e) => ProcessResult::error_with_retry_attempts(part, e, max_attempts, now),
    }
}

} // verus!
