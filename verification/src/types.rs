//! The request and response bodies of the HTTP surface, and the two
//! report-shaping computations: folding aggregate parts into user-visible
//! history records, and condensing a transfer's parts into one status.

use vstd::prelude::*;

use crate::account::history::HistoryTxType;
use crate::cloud::types::{CloudHistoryTx, Report, ReportStatus, TransferPart, TransferStatus};
use crate::helpers::str_eq;

verus! {

#[derive(Clone, Debug, PartialEq, Eq)]
pub struct SignupRequest {
    pub id: Option<String>,
    pub description: String,
    pub sk: Option<String>,
}

#[derive(Clone, Debug, PartialEq, Eq)]
pub struct ImportRequestItem {
    pub id: String,
    pub description: String,
    pub sk: String,
}

#[derive(Clone, Debug, PartialEq, Eq)]
pub struct SignupResponse {
    pub account_id: String,
}

#[derive(Clone, Debug, PartialEq, Eq)]
pub struct AccountInfoRequest {
    pub id: String,
}

#[derive(Clone, Debug, PartialEq, Eq)]
pub struct ReportRequest {
    pub id: String,
}

#[derive(Clone, Debug, PartialEq, Eq)]
pub struct ReportResponse {
    pub id: String,
    pub status: Option<ReportStatus>,
    pub report: Option<Report>,
}

#[derive(Clone, Debug, PartialEq, Eq)]
pub struct GenerateAddressResponse {
    pub address: String,
}

#[derive(Clone, Debug, PartialEq, Eq)]
pub struct TransferRequest {
    pub transaction_id: Option<String>,
    pub account_id: String,
    pub amount: u64,
    pub to: String,
}

#[derive(Clone, Debug, PartialEq, Eq)]
pub struct TransferResponse {
    pub transaction_id: String,
}

#[derive(Clone, Debug, PartialEq, Eq)]
pub struct TransactionStatusRequest {
    pub transaction_id: String,
}

#[derive(Clone, Debug, PartialEq, Eq)]
pub struct CalculateFeeRequest {
    pub account_id: String,
    pub amount: u64,
}

#[derive(Clone, Debug, PartialEq, Eq)]
pub struct CalculateFeeResponse {
    pub transaction_count: u64,
    pub total_fee: u64,
}

#[derive(Clone, Debug, PartialEq, Eq)]
pub struct ExportKeyResponse {
    pub sk: String,
}

/// One user-visible history record; aggregate parts are folded into the
/// record of the request that owns them.
#[derive(Clone, Debug, PartialEq, Eq)]
pub struct HistoryRecord {
    pub tx_type: HistoryTxType,
    pub tx_hash: String,
    pub linked_tx_hashes: Option<Vec<String>>,
    pub timestamp: u64,
    pub amount: u64,
    pub fee: Option<u64>,
    pub to: Option<String>,
    pub transaction_id: Option<String>,
}

pub open spec fn view_opt_str(o: Option<String>) -> Option<Seq<char>> {
    match o {
        Some(s) => Some(s@),
        None => None,
    }
}

/// Whether a history entry is an aggregate (note consolidation) entry.
pub open spec fn is_agg(t: CloudHistoryTx) -> bool {
    t.tx_type == HistoryTxType::AggregateNotes
}

/// The positions of the non-aggregate entries: these become records.
pub open spec fn kept_records(txs: Seq<CloudHistoryTx>, n: int) -> Seq<int>
    decreases n,
{
    if n <= 0 {
        Seq::empty()
    } else {
        kept_records(txs, n - 1) + if !is_agg(txs[n - 1]) {
            seq![n - 1]
        } else {
            Seq::empty()
        }
    }
}

/// The positions of the aggregate entries that belong to one request.
pub open spec fn linked_aggs(txs: Seq<CloudHistoryTx>, tid: Seq<char>, n: int) -> Seq<int>
    decreases n,
{
    if n <= 0 {
        Seq::empty()
    } else {
        linked_aggs(txs, tid, n - 1) + if is_agg(txs[n - 1]) && view_opt_str(
            txs[n - 1].transaction_id,
        ) == Some(tid) {
            seq![n - 1]
        } else {
            Seq::empty()
        }
    }
}

/// The summed fee of the entries at the given positions.
pub open spec fn fees_at(txs: Seq<CloudHistoryTx>, idxs: Seq<int>) -> int
    decreases idxs.len(),
{
    if idxs.len() == 0 {
        0
    } else {
        fees_at(txs, idxs.drop_last()) + txs[idxs.last()].fee
    }
}

/// Fee is omitted for incoming transfers and direct deposits.
pub open spec fn fee_omitted(ty: HistoryTxType) -> bool {
    ty == HistoryTxType::TransferIn || ty == HistoryTxType::DirectDeposit
}

/// Whether one output record is the shaped form of entry `i`.
pub open spec fn record_matches(o: HistoryRecord, txs: Seq<CloudHistoryTx>, i: int) -> bool {
    let t = txs[i];
    &&& o.tx_type == t.tx_type
    &&& o.tx_hash@ == t.tx_hash@
    &&& o.timestamp == t.timestamp
    &&& o.amount == t.amount
    &&& view_opt_str(o.to) == view_opt_str(t.to)
    &&& view_opt_str(o.transaction_id) == view_opt_str(t.transaction_id)
    &&& (match t.transaction_id {
        None => o.linked_tx_hashes is None && o.fee == (if fee_omitted(t.tx_type) {
            None
        } else {
            Some(t.fee)
        }),
        Some(tid) => {
            let linked = linked_aggs(txs, tid@, txs.len() as int);
            &&& (if linked.len() == 0 {
                o.linked_tx_hashes is None
            } else {
                o.linked_tx_hashes matches Some(l) && l@.len() == linked.len() && (forall|m: int|
                    0 <= m < linked.len() ==> (#[trigger] l@[m])@ == txs[linked[m]].tx_hash@)
            })
            &&& o.fee == (if fee_omitted(t.tx_type) {
                None
            } else {
                Some(((t.fee + fees_at(txs, linked)) as u64))
            })
        },
    })
}

impl HistoryRecord {
    /// Shapes enriched history entries into the records a user sees.
    ///
    /// Aggregate entries disappear as records of their own; each remaining
    /// record that carries a request id lists the chain hashes of that
    /// request's aggregate entries and adds their fees to its own.
    pub fn prepare_records(txs: &Vec<CloudHistoryTx>) -> (r: Vec<HistoryRecord>)
        requires
            txs@.len() <= 0x1000_0000,
        ensures
            r@.len() == kept_records(txs@, txs@.len() as int).len(),
            forall|k: int|
                0 <= k < r@.len() ==> #[trigger] record_matches(
                    r@[k],
                    txs@,
                    kept_records(txs@, txs@.len() as int)[k],
                ),
    {
        let n = txs.len();
        let mut out: Vec<HistoryRecord> = Vec::new();
        let mut i: usize = 0;
        while i < n
            invariant
                n == txs@.len(),
                n <= 0x1000_0000,
                i <= n,
                out@.len() == kept_records(txs@, i as int).len(),
                forall|k: int|
                    0 <= k < out@.len() ==> #[trigger] record_matches(
                        out@[k],
                        txs@,
                        kept_records(txs@, i as int)[k],
                    ),
            decreases n - i,
        {
            let t = &txs[i];
            if !matches!(t.tx_type, HistoryTxType::AggregateNotes) {
                let fee_base: Option<u64> = if matches!(t.tx_type, HistoryTxType::TransferIn)
                    || matches!(t.tx_type, HistoryTxType::DirectDeposit) {
                    None
                } else {
                    Some(t.fee)
                };
                let record = match &t.transaction_id {
                    None => HistoryRecord {
                        tx_type: t.tx_type,
                        tx_hash: t.tx_hash.clone(),
                        linked_tx_hashes: None,
                        timestamp: t.timestamp,
                        amount: t.amount,
                        fee: fee_base,
                        to: t.to.clone(),
                        transaction_id: None,
                    },
                    Some(tid) => {
                        let mut linked_hashes: Vec<String> = Vec::new();
                        let mut linked_fees: u128 = 0;
                        let mut j: usize = 0;
                        while j < n
                            invariant
                                n == txs@.len(),
                                n <= 0x1000_0000,
                                j <= n,
                                linked_hashes@.len() == linked_aggs(txs@, tid@, j as int).len(),
                                forall|m: int|
                                    0 <= m < linked_hashes@.len() ==> (#[trigger] linked_hashes@[m])@
                                        == txs@[linked_aggs(txs@, tid@, j as int)[m]].tx_hash@,
                                linked_fees == fees_at(txs@, linked_aggs(txs@, tid@, j as int)),
                                linked_fees
                                    <= j * 0xFFFF_FFFF_FFFF_FFFFu64 as u128,
                            decreases n - j,
                        {
                            let u = &txs[j];
                            let take = matches!(u.tx_type, HistoryTxType::AggregateNotes)
                                && match &u.transaction_id {
                                Some(utid) => str_eq(utid.as_str(), tid.as_str()),
                                None => false,
                            };
                            proof {
                                assert((j as int + 1) * 0xFFFF_FFFF_FFFF_FFFFu64 as u128 == j
                                    * 0xFFFF_FFFF_FFFF_FFFFu64 as u128
                                    + 0xFFFF_FFFF_FFFF_FFFFu64 as u128) by (nonlinear_arith);
                            }
                            if take {
                                linked_hashes.push(u.tx_hash.clone());
                                linked_fees = linked_fees + u.fee as u128;
                            }
                            proof {
                                assert(linked_aggs(txs@, tid@, j as int + 1) =~= linked_aggs(
                                    txs@,
                                    tid@,
                                    j as int,
                                ) + if is_agg(txs@[j as int]) && view_opt_str(
                                    txs@[j as int].transaction_id,
                                ) == Some(tid@) {
                                    seq![j as int]
                                } else {
                                    Seq::<int>::empty()
                                });
                                if take {
                                    assert(linked_aggs(txs@, tid@, j as int + 1).drop_last()
                                        =~= linked_aggs(txs@, tid@, j as int));
                                }
                            }
                            j = j + 1;
                        }
                        let linked_opt: Option<Vec<String>> = if linked_hashes.len() == 0 {
                            None
                        } else {
                            Some(linked_hashes)
                        };
                        let fee: Option<u64> = match fee_base {
                            None => None,
                            Some(f) => Some(
                                #[verifier::truncate] ((f as u128 + linked_fees) as u64),
                            ),
                        };
                        HistoryRecord {
                            tx_type: t.tx_type,
                            tx_hash: t.tx_hash.clone(),
                            linked_tx_hashes: linked_opt,
                            timestamp: t.timestamp,
                            amount: t.amount,
                            fee,
                            to: t.to.clone(),
                            transaction_id: Some(tid.clone()),
                        }
                    },
                };
                out.push(record);
            }
            proof {
                assert(kept_records(txs@, i as int + 1) =~= kept_records(txs@, i as int) + if !is_agg(
                    txs@[i as int],
                ) {
                    seq![i as int]
                } else {
                    Seq::<int>::empty()
                });
            }
            i = i + 1;
        }
        proof {
            assert(kept_records(txs@, n as int) =~= kept_records(txs@, txs@.len() as int));
        }
        out
    }
}

/// What `GET /transactionStatus` reports for one transfer.
#[derive(Clone, Debug, PartialEq, Eq)]
pub struct TransactionStatusResponse {
    pub status: String,
    pub timestamp: u64,
    pub tx_hash: Option<String>,
    pub linked_tx_hashes: Option<Vec<String>>,
    pub failure_reason: Option<String>,
}

/// The chain hashes a transfer shows: each part's hash, where one is known
/// and the part is past `Mining`.
pub open spec fn settled_hashes(parts: Seq<TransferPart>, n: int) -> Seq<Seq<char>>
    decreases n,
{
    if n <= 0 {
        Seq::empty()
    } else {
        settled_hashes(parts, n - 1) + (match parts[n - 1].tx_hash {
            Some(h) => if parts[n - 1].status != TransferStatus::Mining {
                seq![h@]
            } else {
                Seq::empty()
            },
            None => Seq::empty(),
        })
    }
}

/// The position of the first failed part, if any.
pub open spec fn first_failed(parts: Seq<TransferPart>, n: int) -> Option<int>
    decreases n,
{
    if n <= 0 {
        None
    } else {
        match first_failed(parts, n - 1) {
            Some(i) => Some(i),
            None => if parts[n - 1].status.is_failed() {
                Some(n - 1)
            } else {
                None
            },
        }
    }
}

/// The position of the last part that has left `New`, if any.
pub open spec fn last_started(parts: Seq<TransferPart>, n: int) -> Option<int>
    decreases n,
{
    if n <= 0 {
        None
    } else {
        if parts[n - 1].status != TransferStatus::New {
            Some(n - 1)
        } else {
            last_started(parts, n - 1)
        }
    }
}

impl TransactionStatusResponse {
    /// Condenses a transfer's parts into the user-visible status.
    ///
    /// The hashes of settled parts are collected; the last one is the
    /// transfer's hash and the earlier ones are linked — a single-part
    /// transfer therefore reports no linked hashes at all. A transfer
    /// whose last part is done is `Done`; one with a failed part reports
    /// the first failure's time and reason; otherwise it is `Relaying`
    /// once any part has started, and `New` before that.
    #[verifier::loop_isolation(false)]
    pub fn from(parts: &Vec<TransferPart>) -> (r: TransactionStatusResponse)
        requires
            parts@.len() > 0,
        ensures
            ({
                let hs = settled_hashes(parts@, parts@.len() as int);
                &&& (if hs.len() == 0 {
                    r.tx_hash is None && r.linked_tx_hashes is None
                } else {
                    &&& (r.tx_hash matches Some(h) && h@ == hs.last())
                    &&& (if hs.len() == 1 {
                        r.linked_tx_hashes is None
                    } else {
                        r.linked_tx_hashes matches Some(l) && l@.len() == hs.len() - 1 && (
                        forall|m: int| 0 <= m < hs.len() - 1 ==> (#[trigger] l@[m])@ == hs[m])
                    })
                })
                &&& (if parts@.last().status == TransferStatus::Done {
                    r.status@ == "Done"@ && r.timestamp == parts@.last().timestamp
                        && r.failure_reason is None
                } else if parts@.last().status.is_failed() {
                    first_failed(parts@, parts@.len() as int) matches Some(i) && r.status@
                        == parts@[i].status.status_str_spec() && r.timestamp == parts@[i].timestamp
                        && (r.failure_reason matches Some(m) && Some(m@)
                        == parts@[i].status.failure_reason_spec())
                } else {
                    match last_started(parts@, parts@.len() as int) {
                        Some(i) => r.status@ == "Relaying"@ && r.timestamp == parts@[i].timestamp
                            && r.failure_reason is None,
                        None => r.status@ == "New"@ && r.timestamp == parts@[0].timestamp
                            && r.failure_reason is None,
                    }
                })
            }),
    {
        let n = parts.len();
        let mut hashes: Vec<String> = Vec::new();
        let mut i: usize = 0;
        while i < n
            invariant
                n == parts@.len(),
                i <= n,
                hashes@.len() == settled_hashes(parts@, i as int).len(),
                forall|m: int|
                    0 <= m < hashes@.len() ==> (#[trigger] hashes@[m])@ == settled_hashes(
                        parts@,
                        i as int,
                    )[m],
            decreases n - i,
        {
            let p = &parts[i];
            match &p.tx_hash {
                Some(h) => {
                    if !matches!(p.status, TransferStatus::Mining) {
                        hashes.push(h.clone());
                    }
                },
                None => {},
            }
            proof {
                assert(settled_hashes(parts@, i as int + 1) =~= settled_hashes(parts@, i as int)
                    + (match parts@[i as int].tx_hash {
                    Some(h) => if parts@[i as int].status != TransferStatus::Mining {
                        seq![h@]
                    } else {
                        Seq::<Seq<char>>::empty()
                    },
                    None => Seq::<Seq<char>>::empty(),
                }));
            }
            i = i + 1;
        }

        let ghost all_hashes = hashes@;
        let ghost hs = settled_hashes(parts@, parts@.len() as int);
        proof {
            assert(all_hashes.len() == hs.len());
        }
        let tx_hash: Option<String> = hashes.pop();
        let linked_tx_hashes: Option<Vec<String>> = if tx_hash.is_some() && hashes.len() > 0 {
            Some(hashes)
        } else {
            None
        };
        proof {
            if hs.len() == 0 {
                assert(tx_hash is None && linked_tx_hashes is None);
            } else {
                assert(tx_hash == Some(all_hashes[all_hashes.len() - 1]));
                assert(all_hashes[all_hashes.len() - 1]@ == hs[hs.len() - 1]);
                if hs.len() == 1 {
                    assert(linked_tx_hashes is None);
                } else {
                    assert(linked_tx_hashes matches Some(l) && l@ == all_hashes.subrange(
                        0,
                        all_hashes.len() - 1,
                    ));
                    assert forall|m: int|
                        0 <= m < hs.len() - 1 implies (#[trigger] all_hashes.subrange(
                        0,
                        all_hashes.len() - 1,
                    )[m])@ == hs[m] by {
                        assert(all_hashes.subrange(0, all_hashes.len() - 1)[m] == all_hashes[m]);
                    }
                }
            }
        }

        let last = &parts[n - 1];
        if matches!(last.status, TransferStatus::Done) {
            return TransactionStatusResponse {
                status: String::from_str("Done"),
                timestamp: last.timestamp,
                tx_hash,
                linked_tx_hashes,
                failure_reason: None,
            };
        }
        if matches!(last.status, TransferStatus::Failed(_)) {
            let mut j: usize = 0;
            while j < n
                invariant
                    n == parts@.len(),
                    j <= n,
                    first_failed(parts@, j as int) is None,
                    parts@.last().status.is_failed(),
                decreases n - j,
            {
                if matches!(parts[j].status, TransferStatus::Failed(_)) {
                    proof {
                        assert(first_failed(parts@, j as int + 1) == Some(j as int));
                        lemma_first_failed_stable(parts@, j as int + 1, parts@.len() as int);
                    }
                    return TransactionStatusResponse {
                        status: parts[j].status.status(),
                        timestamp: parts[j].timestamp,
                        tx_hash,
                        linked_tx_hashes,
                        failure_reason: parts[j].status.failure_reason(),
                    };
                }
                j = j + 1;
            }
            proof {
                assert(parts@.last().status.is_failed());
                assert(first_failed(parts@, n as int) is None);
                assert(false);
            }
        }
        let mut j: usize = n;
        while j > 0
            invariant
                n == parts@.len(),
                j <= n,
                last_started(parts@, n as int) == last_started(parts@, j as int),
            decreases j,
        {
            if !matches!(parts[j - 1].status, TransferStatus::New) {
                proof {
                    assert(last_started(parts@, j as int) == Some(j as int - 1));
                }
                return TransactionStatusResponse {
                    status: String::from_str("Relaying"),
                    timestamp: parts[j - 1].timestamp,
                    tx_hash,
                    linked_tx_hashes,
                    failure_reason: None,
                };
            }
            j = j - 1;
        }
        proof {
            assert(last_started(parts@, 0) is None);
        }
        TransactionStatusResponse {
            status: String::from_str("New"),
            timestamp: parts[0].timestamp,
            tx_hash,
            linked_tx_hashes,
            failure_reason: None,
        }
    }
}

/// Once a failed part exists within a prefix, longer prefixes report the
/// same first failure.
pub proof fn lemma_first_failed_stable(parts: Seq<TransferPart>, m: int, n: int)
    requires
        0 < m <= n <= parts.len(),
        first_failed(parts, m) is Some,
    ensures
        first_failed(parts, n) == first_failed(parts, m),
    decreases n - m,
{
    if m < n {
        lemma_first_failed_stable(parts, m, n - 1);
    }
}

} // verus!
