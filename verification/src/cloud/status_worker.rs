//! The confirm worker's decisions.
//!
//! The worker loop outside the library receives a part id from the status
//! queue, loads the part, polls the relayer for its job, and hands both to
//! the functions here: what the poll means for the part and what to
//! persist, enqueue or acknowledge is decided — and verified — in this
//! module.

use vstd::prelude::*;

use crate::cloud::types::{status_advances, TransferPart, TransferStatus};
use crate::errors::CloudError;

verus! {

/// What one relayer poll reported, already mapped onto the pipeline's
/// statuses, together with the chain transaction hash when one is known.
#[derive(Clone, Debug, PartialEq, Eq)]
pub struct JobStatus {
    pub status: TransferStatus,
    pub tx_hash: Option<String>,
}

/// What the worker should do after one status round: persist `part` if
/// `update`, record the part's chain hash against its request if
/// `save_transaction_id`, and acknowledge the queue message if `delete`.
#[derive(Clone, Debug, PartialEq, Eq)]
pub struct StatusProcessResult {
    pub part: Option<TransferPart>,
    pub delete: bool,
    pub update: bool,
    pub save_transaction_id: bool,
}

impl StatusProcessResult {
    /// Leave the message for a later poll.
    pub fn retry_later() -> (r: StatusProcessResult)
        ensures
            r.part is None,
            !r.delete,
            !r.update,
            !r.save_transaction_id,
    {
        StatusProcessResult { part: None, delete: false, update: false, save_transaction_id: false }
    }

    /// Acknowledge the message without touching the part.
    pub fn delete_from_queue() -> (r: StatusProcessResult)
        ensures
            r.part is None,
            r.delete,
            !r.update,
            !r.save_transaction_id,
    {
        StatusProcessResult { part: None, delete: true, update: false, save_transaction_id: false }
    }

    /// The shape of a terminal failure.
    pub open spec fn error_without_retry_spec(
        part: TransferPart,
        err: CloudError,
        now: u64,
    ) -> StatusProcessResult {
        StatusProcessResult {
            part: Some(
                TransferPart { status: TransferStatus::Failed(err), timestamp: now, ..part },
            ),
            delete: true,
            update: true,
            save_transaction_id: false,
        }
    }

    /// A retryable failure, attempt-counted like the submit worker's.
    pub fn error_with_retry_attempts(
        part: TransferPart,
        err: CloudError,
        max_attempts: u32,
        now: u64,
    ) -> (r: StatusProcessResult)
        requires
            !part.status.is_final_spec(),
        ensures
            part.attempt >= max_attempts ==> r == Self::error_without_retry_spec(part, err, now),
            part.attempt < max_attempts ==> !r.delete && r.update && !r.save_transaction_id
                && r.part == Some(TransferPart { attempt: (part.attempt + 1) as u32, ..part }),
            r.part matches Some(p) ==> status_advances(part.status, p.status),
    {
        if part.attempt >= max_attempts {
            return StatusProcessResult {
                part: Some(
                    TransferPart { status: TransferStatus::Failed(err), timestamp: now, ..part },
                ),
                delete: true,
                update: true,
                save_transaction_id: false,
            };
        }
        let attempt = part.attempt + 1;
        StatusProcessResult {
            part: Some(TransferPart { attempt, ..part }),
            delete: false,
            update: true,
            save_transaction_id: false,
        }
    }
}

/// What the early checks of one status round decided: either the part is
/// `Relaying` or `Mining` under a known job id and the relayer should be
/// polled, or the round finishes now.
#[derive(Clone, Debug, PartialEq, Eq)]
pub enum StatusPreflight {
    Ready(TransferPart, String),
    Finish(StatusProcessResult),
}

/// The early checks of the confirm worker. A part that cannot be loaded,
/// sits in any status outside `Relaying` and `Mining` (in particular a
/// terminal one — so re-delivery of a settled message changes nothing), or
/// carries no job id, is acknowledged untouched.
pub fn status_preflight(part: Result<TransferPart, CloudError>) -> (r: StatusPreflight)
    ensures
        part is Err ==> r == StatusPreflight::Finish(
            StatusProcessResult {
                part: None,
                delete: true,
                update: false,
                save_transaction_id: false,
            },
        ),
        part matches Ok(p) ==> (!(p.status == TransferStatus::Relaying || p.status
            == TransferStatus::Mining) ==> r == StatusPreflight::Finish(
            StatusProcessResult {
                part: None,
                delete: true,
                update: false,
                save_transaction_id: false,
            },
        )),
        part matches Ok(p) ==> ((p.status == TransferStatus::Relaying || p.status
            == TransferStatus::Mining) ==> match p.job_id {
            None => r == StatusPreflight::Finish(
                StatusProcessResult {
                    part: None,
                    delete: true,
                    update: false,
                    save_transaction_id: false,
                },
            ),
            Some(job_id) => r == StatusPreflight::Ready(p, job_id),
        }),
{
    let part = match part {
        Ok(part) => part,
        Err(_) => {
            return StatusPreflight::Finish(StatusProcessResult::delete_from_queue());
        },
    };
    match &part.status {
        TransferStatus::Relaying | TransferStatus::Mining => {},
        _ => {
            return StatusPreflight::Finish(StatusProcessResult::delete_from_queue());
        },
    }
    let job_id = match &part.job_id {
        Some(job_id) => job_id.clone(),
        None => {
            return StatusPreflight::Finish(StatusProcessResult::delete_from_queue());
        },
    };
    StatusPreflight::Ready(part, job_id)
}

/// Records one relayer poll.
///
/// A completed job with a hash finishes the part as `Done` and indexes its
/// chain hash; a sent job records `Mining` with its hash and is polled
/// again later; a rejection is terminal with the relayer's reason; a job
/// still waiting is left alone; a missing hash or a transport error is
/// retried within the attempt budget. Every persisted status advances the
/// machine.
pub fn status_poll_outcome(
    part: TransferPart,
    response: Result<JobStatus, CloudError>,
    max_attempts: u32,
    now: u64,
) -> (r: StatusProcessResult)
    requires
        part.status == TransferStatus::Relaying || part.status == TransferStatus::Mining,
    ensures
        response matches Ok(js) ==> (js.status == TransferStatus::Done ==> match js.tx_hash {
            Some(h) => r == (StatusProcessResult {
                part: Some(
                    TransferPart {
                        status: TransferStatus::Done,
                        tx_hash: Some(h),
                        timestamp: now,
                        ..part
                    },
                ),
                delete: true,
                update: true,
                save_transaction_id: true,
            }),
            None => ({
                &&& part.attempt >= max_attempts ==> r
                    == StatusProcessResult::error_without_retry_spec(
                    part,
                    CloudError::RelayerSendError,
                    now,
                )
                &&& part.attempt < max_attempts ==> r.part == Some(
                    TransferPart { attempt: (part.attempt + 1) as u32, ..part },
                ) && !r.delete && r.update && !r.save_transaction_id
            }),
        }),
        response matches Ok(js) ==> (js.status == TransferStatus::Mining ==> match js.tx_hash {
            Some(h) => r == (StatusProcessResult {
                part: Some(
                    TransferPart { status: TransferStatus::Mining, tx_hash: Some(h), ..part },
                ),
                delete: false,
                update: true,
                save_transaction_id: false,
            }),
            None => ({
                &&& part.attempt >= max_attempts ==> r
                    == StatusProcessResult::error_without_retry_spec(
                    part,
                    CloudError::RelayerSendError,
                    now,
                )
                &&& part.attempt < max_attempts ==> r.part == Some(
                    TransferPart { attempt: (part.attempt + 1) as u32, ..part },
                ) && !r.delete && r.update && !r.save_transaction_id
            }),
        }),
        response matches Ok(js) ==> (js.status matches TransferStatus::Failed(err) ==> r
            == (StatusProcessResult {
            part: Some(
                TransferPart {
                    status: TransferStatus::Failed(err),
                    tx_hash: js.tx_hash,
                    timestamp: now,
                    ..part
                },
            ),
            delete: true,
            update: true,
            save_transaction_id: false,
        })),
        response matches Ok(js) ==> ((js.status == TransferStatus::New || js.status
            == TransferStatus::Proving || js.status == TransferStatus::Relaying) ==> r
            == (StatusProcessResult {
            part: None,
            delete: false,
            update: false,
            save_transaction_id: false,
        })),
        response matches Err(e) ==> ({
            &&& part.attempt >= max_attempts ==> r
                == StatusProcessResult::error_without_retry_spec(part, e, now)
            &&& part.attempt < max_attempts ==> r.part == Some(
                TransferPart { attempt: (part.attempt + 1) as u32, ..part },
            ) && !r.delete && r.update && !r.save_transaction_id
        }),
        r.part matches Some(p) ==> status_advances(part.status, p.status),
{
    match response {
        Ok(js) => {
            match js.status {
                TransferStatus::Done => {
                    match js.tx_hash {
                        Some(tx_hash) => StatusProcessResult {
                            part: Some(
                                TransferPart {
                                    status: TransferStatus::Done,
                                    tx_hash: Some(tx_hash),
                                    timestamp: now,
                                    ..part
                                },
                            ),
                            delete: true,
                            update: true,
                            save_transaction_id: true,
                        },
                        None => StatusProcessResult::error_with_retry_attempts(
                            part,
                            CloudError::RelayerSendError,
                            max_attempts,
                            now,
                        ),
                    }
                },
                TransferStatus::Mining => {
                    match js.tx_hash {
                        Some(tx_hash) => StatusProcessResult {
                            part: Some(
                                TransferPart {
                                    status: TransferStatus::Mining,
                                    tx_hash: Some(tx_hash),
                                    ..part
                                },
                            ),
                            delete: false,
                            update: true,
                            save_transaction_id: false,
                        },
                        None => StatusProcessResult::error_with_retry_attempts(
                            part,
                            CloudError::RelayerSendError,
                            max_attempts,
                            now,
                        ),
                    }
                },
                TransferStatus::Failed(err) => StatusProcessResult {
                    part: Some(
                        TransferPart {
                            status: TransferStatus::Failed(err),
                            tx_hash: js.tx_hash,
                            timestamp: now,
                            ..part
                        },
                    ),
                    delete: true,
                    update: true,
                    save_transaction_id: false,
                },
                _ => StatusProcessResult::retry_later(),
            }
        },
        Err(e) => StatusProcessResult::error_with_retry_attempts(part, e, max_attempts, now),
    }
}

} // verus!
