//! Data carried through the durable transfer pipeline: requests, tasks,
//! parts, their status machine, and the fleet report records.

use vstd::prelude::*;

use crate::account::history::{HistoryTx, HistoryTxType};
use crate::errors::CloudError;

verus! {

/// A registry row describing one account.
#[derive(Clone, Debug, PartialEq, Eq)]
pub struct AccountData {
    pub description: String,
    pub db_path: String,
    pub sk: String,
}

/// One line of the administrator's account listing.
#[derive(Clone, Debug, PartialEq, Eq)]
pub struct AccountShortInfo {
    pub id: String,
    pub description: String,
    pub sk: String,
}

/// One account of a bulk import request, with the key already decoded.
#[derive(Clone, Debug, PartialEq, Eq)]
pub struct AccountImportData {
    pub id: String,
    pub description: String,
    pub sk: Vec<u8>,
}

/// A history entry enriched with the transfer request that produced it,
/// where one is recorded for its chain transaction.
#[derive(Clone, Debug, PartialEq, Eq)]
pub struct CloudHistoryTx {
    pub tx_type: HistoryTxType,
    pub tx_hash: String,
    pub timestamp: u64,
    pub amount: u64,
    pub fee: u64,
    pub to: Option<String>,
    pub transaction_id: Option<String>,
}

impl CloudHistoryTx {
    pub fn new(record: HistoryTx, transaction_id: Option<String>) -> (r: CloudHistoryTx)
        ensures
            r.tx_type == record.tx_type,
            r.tx_hash == record.tx_hash,
            r.timestamp == record.timestamp,
            r.amount == record.amount,
            r.fee == record.fee,
            r.to == record.to,
            r.transaction_id == transaction_id,
    {
        CloudHistoryTx {
            tx_type: record.tx_type,
            tx_hash: record.tx_hash,
            timestamp: record.timestamp,
            amount: record.amount,
            fee: record.fee,
            to: record.to,
            transaction_id,
        }
    }
}

/// An admin transfer order: move `amount` from the account to the shielded
/// address `to`, under the caller-chosen request id.
#[derive(Clone, Debug, PartialEq, Eq)]
pub struct Transfer {
    pub id: String,
    pub account_id: String,
    pub amount: u64,
    pub to: String,
}

/// Where a transfer part stands in the pipeline. `Done` and `Failed` are
/// terminal; everything else can still advance.
#[derive(Clone, Debug, PartialEq, Eq)]
pub enum TransferStatus {
    New,
    Proving,
    Relaying,
    Mining,
    Done,
    Failed(CloudError),
}

impl TransferStatus {
    pub open spec fn is_failed(&self) -> bool {
        match self {
            TransferStatus::Failed(_) => true,
            _ => false,
        }
    }

    pub open spec fn is_final_spec(&self) -> bool {
        match self {
            TransferStatus::Done => true,
            TransferStatus::Failed(_) => true,
            _ => false,
        }
    }

    /// Terminal statuses are `Done` and `Failed`.
    pub fn is_final(&self) -> (r: bool)
        ensures
            r == self.is_final_spec(),
    {
        match self {
            TransferStatus::Done => true,
            TransferStatus::Failed(_) => true,
            _ => false,
        }
    }

    /// Maps the relayer's job state string onto the pipeline's own statuses;
    /// a rejection carries the relayer's reason, and an unrecognised state
    /// counts as a relayer failure.
    pub fn from_relayer_response(status: String, failure_reason: Option<String>) -> (r: Self)
        ensures
            status@ == "waiting"@ ==> r == TransferStatus::Relaying,
            status@ == "sent"@ ==> r == TransferStatus::Mining,
            status@ == "completed"@ ==> r == TransferStatus::Done,
            (status@ == "reverted"@ || status@ == "failed"@) ==> (r matches TransferStatus::Failed(
                e,
            ) && e matches CloudError::TaskRejectedByRelayer(m) && m@ == (match failure_reason {
                Some(reason) => reason@,
                None => Seq::<char>::empty(),
            })),
            !(status@ == "waiting"@ || status@ == "sent"@ || status@ == "completed"@ || status@
                == "reverted"@ || status@ == "failed"@) ==> r == TransferStatus::Failed(
                CloudError::RelayerSendError,
            ),
    {
        proof {
            reveal_strlit("waiting");
            reveal_strlit("sent");
            reveal_strlit("completed");
            reveal_strlit("reverted");
            reveal_strlit("failed");
            assert("waiting"@.len() == 7 && "sent"@.len() == 4 && "completed"@.len() == 9
                && "reverted"@.len() == 8 && "failed"@.len() == 6);
        }
        if status == String::from_str("waiting") {
            TransferStatus::Relaying
        } else if status == String::from_str("sent") {
            TransferStatus::Mining
        } else if status == String::from_str("completed") {
            TransferStatus::Done
        } else if status == String::from_str("reverted") || status == String::from_str("failed") {
            let reason = match failure_reason {
                Some(reason) => reason,
                None => String::new(),
            };
            TransferStatus::Failed(CloudError::TaskRejectedByRelayer(reason))
        } else {
            TransferStatus::Failed(CloudError::RelayerSendError)
        }
    }

    pub open spec fn status_str_spec(&self) -> Seq<char> {
        match self {
            TransferStatus::New => "New"@,
            TransferStatus::Proving => "Proving"@,
            TransferStatus::Relaying => "Relaying"@,
            TransferStatus::Mining => "Mining"@,
            TransferStatus::Done => "Done"@,
            TransferStatus::Failed(_) => "Failed"@,
        }
    }

    /// The user-facing name of the status; every `Failed` renders as
    /// `"Failed"` regardless of its reason.
    pub fn status(&self) -> (r: String)
        ensures
            r@ == self.status_str_spec(),
    {
        match self {
            TransferStatus::New => String::from_str("New"),
            TransferStatus::Proving => String::from_str("Proving"),
            TransferStatus::Relaying => String::from_str("Relaying"),
            TransferStatus::Mining => String::from_str("Mining"),
            TransferStatus::Done => String::from_str("Done"),
            TransferStatus::Failed(_) => String::from_str("Failed"),
        }
    }

    pub open spec fn failure_reason_spec(&self) -> Option<Seq<char>> {
        match self {
            TransferStatus::Failed(err) => Some(err.message_spec()),
            _ => None,
        }
    }

    /// The rendered failure message, present exactly on `Failed`.
    pub fn failure_reason(&self) -> (r: Option<String>)
        ensures
            match (r, self) {
                (Some(msg), TransferStatus::Failed(err)) => msg@ == err.message_spec(),
                (None, TransferStatus::Failed(_)) => false,
                (None, _) => true,
                (Some(_), _) => false,
            },
    {
        match self {
            TransferStatus::Failed(err) => Some(err.message()),
            _ => None,
        }
    }
}

/// The transitions a persisted part's status may take: stay put, advance
/// along `New -> Relaying -> Mining -> Done`, or fail from any
/// non-terminal status. A part can also pass straight from `Relaying` to
/// `Done` when its job completes before any poll observed it mining.
/// Terminal statuses never change.
pub open spec fn status_advances(from: TransferStatus, to: TransferStatus) -> bool {
    ||| to == from
    ||| (from == TransferStatus::New && to == TransferStatus::Relaying)
    ||| (from == TransferStatus::Relaying && to == TransferStatus::Mining)
    ||| (from == TransferStatus::Relaying && to == TransferStatus::Done)
    ||| (from == TransferStatus::Mining && to == TransferStatus::Done)
    ||| (!from.is_final_spec() && to.is_failed())
}

/// One shielded transaction of a transfer request. Part `i` of request `R`
/// has id `R.i` and, for `i > 0`, depends on part `i - 1`.
#[derive(Clone, Debug, PartialEq, Eq)]
pub struct TransferPart {
    pub id: String,
    pub request_id: String,
    pub account_id: String,
    pub amount: u64,
    pub fee: u64,
    pub to: Option<String>,
    pub status: TransferStatus,
    pub job_id: Option<String>,
    pub tx_hash: Option<String>,
    pub depends_on: Option<String>,
    pub attempt: u32,
    pub timestamp: u64,
}

/// The id of part `i` of a request: the request id, a dot, and the part's
/// position in decimal.
pub open spec fn part_id_of(request_id: Seq<char>, i: u64) -> Seq<char> {
    request_id + "."@ + crate::helpers::dec_str_of(i)
}

/// Builds the id of part `i` of a request.
pub fn part_id(request_id: &str, i: u64) -> (r: String)
    ensures
        r@ == part_id_of(request_id@, i),
{
    let mut out = String::from_str(request_id);
    out.append(".");
    let digits = crate::helpers::u64_dec_str(i);
    out.append(digits.as_str());
    out
}

/// The row persisted for a whole transfer request: its id and the ids of its
/// parts, in submission order.
#[derive(Clone, Debug, PartialEq, Eq)]
pub struct TransferTask {
    pub request_id: String,
    pub parts: Vec<String>,
}

/// One account's entry of a fleet report.
#[derive(Clone, Debug, PartialEq, Eq)]
pub struct AccountReport {
    pub id: String,
    pub description: String,
    pub balance: u64,
    pub max_transfer_amount: u64,
    pub address: String,
    pub sk: String,
}

/// A fleet-wide balance report, taken against one frozen pool index.
#[derive(Clone, Debug, PartialEq, Eq)]
pub struct Report {
    pub timestamp: u64,
    pub pool_index: u64,
    pub accounts: Vec<AccountReport>,
}

#[derive(Clone, Debug, PartialEq, Eq)]
pub enum ReportStatus {
    New,
    Completed,
    Failed,
}

/// The persisted state of one report request.
#[derive(Clone, Debug, PartialEq, Eq)]
pub struct ReportTask {
    pub status: ReportStatus,
    pub attempt: u32,
    pub report: Option<Report>,
}

} // verus!
