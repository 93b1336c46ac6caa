use zkbob_cloud::account::history::{HistoryTx, HistoryTxType};
use zkbob_cloud::account::tx_parser::{DecMemo, IndexedNote, PlainNote};
use zkbob_cloud::cloud::types::{CloudHistoryTx, TransferPart, TransferStatus};
use zkbob_cloud::errors::CloudError;
use zkbob_cloud::types::{HistoryRecord, TransactionStatusResponse};
use zkbob_cloud::web3::cached::TxWeb3Info;
use zkbob_cloud::Fr256;

fn note(b: u64) -> PlainNote {
    PlainNote { d: 77, p_d: Fr256 { hi: 1, lo: 2 }, b, t: 9 }
}

fn memo(ins: Vec<IndexedNote>, outs: Vec<IndexedNote>) -> DecMemo {
    DecMemo {
        index: 128,
        acc: None,
        in_notes: ins,
        out_notes: outs,
        tx_hash: Some("0xhash".to_string()),
    }
}

#[test]
fn loopback_note_is_returned_change_once() {
    // a note at index 5 on both sides yields exactly one record, of kind
    // ReturnedChange
    let n = IndexedNote { index: 5, note: note(70) };
    let m = memo(vec![n], vec![n]);
    let r = HistoryTx::parse(&m, &TxWeb3Info::Transfer(1000, 10, 0), None, None);
    assert_eq!(r.len(), 1);
    assert_eq!(r[0].tx_type, HistoryTxType::ReturnedChange);
    assert_eq!(r[0].amount, 70);
    assert_eq!(r[0].tx_hash, "0xhash");
}

#[test]
fn transfer_in_and_out_are_kept_apart() {
    let a = IndexedNote { index: 5, note: note(70) };
    let b = IndexedNote { index: 6, note: note(30) };
    let m = memo(vec![a], vec![b]);
    let r = HistoryTx::parse(&m, &TxWeb3Info::Transfer(1000, 10, 0), None, None);
    assert_eq!(r.len(), 2);
    assert_eq!(r[0].tx_type, HistoryTxType::TransferIn);
    assert_eq!(r[0].amount, 70);
    assert_eq!(r[1].tx_type, HistoryTxType::TransferOut);
    assert_eq!(r[1].amount, 30);
}

#[test]
fn deposit_and_withdrawal_records() {
    let m = memo(vec![], vec![]);
    let r = HistoryTx::parse(&m, &TxWeb3Info::Deposit(1000, 10, 500), None, None);
    assert_eq!(r.len(), 1);
    assert_eq!(r[0].tx_type, HistoryTxType::Deposit);
    assert_eq!(r[0].amount, 500);
    assert_eq!(r[0].fee, 10);
    assert_eq!(r[0].to, None);

    // withdrawal of 105 with fee 5: the client convention shows 100
    let r = HistoryTx::parse(&m, &TxWeb3Info::Withdrawal(1000, 5, -105), None, None);
    assert_eq!(r.len(), 1);
    assert_eq!(r[0].tx_type, HistoryTxType::Withdrawal);
    assert_eq!(r[0].amount, 100);
}

#[test]
fn aggregate_amount_is_the_balance_step() {
    let mut m = memo(vec![], vec![]);
    m.acc = Some(zkbob_cloud::account::tx_parser::ShieldedAccount {
        d: 0,
        p_d: Fr256 { hi: 0, lo: 0 },
        i: 0,
        b: 300,
        e: 0,
    });
    let prev = zkbob_cloud::account::tx_parser::ShieldedAccount {
        d: 0,
        p_d: Fr256 { hi: 0, lo: 0 },
        i: 0,
        b: 120,
        e: 0,
    };
    let r = HistoryTx::parse(&m, &TxWeb3Info::Transfer(1000, 10, 0), Some(prev), None);
    assert_eq!(r.len(), 1);
    assert_eq!(r[0].tx_type, HistoryTxType::AggregateNotes);
    assert_eq!(r[0].amount, 180);
}

#[test]
fn direct_deposit_records_per_note() {
    let a = IndexedNote { index: 5, note: note(70) };
    let b = IndexedNote { index: 6, note: note(30) };
    let m = memo(vec![a, b], vec![]);
    let r = HistoryTx::parse(&m, &TxWeb3Info::DirectDeposit(1000, 3), None, None);
    assert_eq!(r.len(), 2);
    assert_eq!(r[0].tx_type, HistoryTxType::DirectDeposit);
    assert_eq!(r[1].amount, 30);
}

fn cloud_tx(
    ty: HistoryTxType,
    hash: &str,
    fee: u64,
    tid: Option<&str>,
) -> CloudHistoryTx {
    CloudHistoryTx {
        tx_type: ty,
        tx_hash: hash.to_string(),
        timestamp: 1000,
        amount: 50,
        fee,
        to: None,
        transaction_id: tid.map(|s| s.to_string()),
    }
}

#[test]
fn aggregates_fold_into_their_request() {
    // the aggregate entry of request T disappears as a record; its hash
    // and fee fold into the request's own record
    let txs = vec![
        cloud_tx(HistoryTxType::AggregateNotes, "0xagg", 10, Some("T")),
        cloud_tx(HistoryTxType::TransferOut, "0xmain", 5, Some("T")),
    ];
    let r = HistoryRecord::prepare_records(&txs);
    assert_eq!(r.len(), 1);
    assert_eq!(r[0].tx_hash, "0xmain");
    assert_eq!(r[0].linked_tx_hashes, Some(vec!["0xagg".to_string()]));
    assert_eq!(r[0].fee, Some(15));
    assert_eq!(r[0].transaction_id, Some("T".to_string()));
}

#[test]
fn fee_is_omitted_for_incoming_kinds() {
    let txs = vec![cloud_tx(HistoryTxType::TransferIn, "0xin", 7, None)];
    let r = HistoryRecord::prepare_records(&txs);
    assert_eq!(r.len(), 1);
    assert_eq!(r[0].fee, None);
    assert_eq!(r[0].linked_tx_hashes, None);
}

fn status_part(id: &str, status: TransferStatus, tx_hash: Option<&str>, ts: u64) -> TransferPart {
    TransferPart {
        id: id.to_string(),
        request_id: "req".to_string(),
        account_id: "acc".to_string(),
        amount: 1,
        fee: 1,
        to: None,
        status,
        job_id: None,
        tx_hash: tx_hash.map(|s| s.to_string()),
        depends_on: None,
        attempt: 0,
        timestamp: ts,
    }
}

#[test]
fn single_done_part_reports_done() {
    let parts = vec![status_part("req.0", TransferStatus::Done, Some("0xa"), 44)];
    let r = TransactionStatusResponse::from(&parts);
    assert_eq!(r.status, "Done");
    assert_eq!(r.timestamp, 44);
    assert_eq!(r.tx_hash, Some("0xa".to_string()));
    // a single settled hash is the transfer's own; nothing is linked
    assert_eq!(r.linked_tx_hashes, None);
    assert_eq!(r.failure_reason, None);
}

#[test]
fn first_failure_wins_the_report() {
    let parts = vec![
        status_part("req.0", TransferStatus::Failed(CloudError::PreviousTxFailed), None, 10),
        status_part("req.1", TransferStatus::Failed(CloudError::RelayerSendError), None, 20),
    ];
    let r = TransactionStatusResponse::from(&parts);
    assert_eq!(r.status, "Failed");
    assert_eq!(r.timestamp, 10);
    assert_eq!(r.failure_reason, Some("previous tx failed".to_string()));
}

#[test]
fn in_flight_transfer_reports_relaying() {
    let parts = vec![
        status_part("req.0", TransferStatus::Done, Some("0xa"), 10),
        status_part("req.1", TransferStatus::Relaying, None, 30),
    ];
    let r = TransactionStatusResponse::from(&parts);
    assert_eq!(r.status, "Relaying");
    assert_eq!(r.timestamp, 30);
    assert_eq!(r.tx_hash, Some("0xa".to_string()));
}

#[test]
fn untouched_transfer_reports_new() {
    let parts = vec![
        status_part("req.0", TransferStatus::New, None, 10),
        status_part("req.1", TransferStatus::New, None, 20),
    ];
    let r = TransactionStatusResponse::from(&parts);
    assert_eq!(r.status, "New");
    assert_eq!(r.timestamp, 10);
    assert_eq!(r.tx_hash, None);
    assert_eq!(r.linked_tx_hashes, None);
}

#[test]
fn mining_hash_is_not_final() {
    // a hash on a still-mining part does not count as the transfer's hash
    let parts = vec![status_part("req.0", TransferStatus::Mining, Some("0xm"), 10)];
    let r = TransactionStatusResponse::from(&parts);
    assert_eq!(r.tx_hash, None);
    assert_eq!(r.status, "Relaying");
}
