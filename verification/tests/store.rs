use zkbob_cloud::account::db::Db as AccountDb;
use zkbob_cloud::account::tx_parser::{DecMemo, IndexedNote, PlainNote, ShieldedAccount};
use zkbob_cloud::cloud::cloud::load_transfer;
use zkbob_cloud::cloud::db::Db as CloudDb;
use zkbob_cloud::cloud::registry::Registry;
use zkbob_cloud::cloud::types::{
    Report, ReportStatus, ReportTask, TransferPart, TransferStatus, TransferTask,
};
use zkbob_cloud::errors::CloudError;
use zkbob_cloud::helpers::hex::{hex_decode, hex_encode};
use zkbob_cloud::helpers::uuid::{canonical_uuid, fresh_uuid, is_valid_uuid};
use zkbob_cloud::relayer::db::Db as RelayerDb;
use zkbob_cloud::relayer::cached::{merge_fetched, parse_relayer_record, Transaction};
use zkbob_cloud::web3::cached::TxWeb3Info;
use zkbob_cloud::web3::db::Db as Web3Db;
use zkbob_cloud::Fr256;

fn part(id: &str, depends_on: Option<&str>) -> TransferPart {
    TransferPart {
        id: id.to_string(),
        request_id: "req".to_string(),
        account_id: "f47ac10b-58cc-4372-a567-0e02b2c3d479".to_string(),
        amount: 150,
        fee: 10,
        to: Some("addr".to_string()),
        status: TransferStatus::New,
        job_id: None,
        tx_hash: None,
        depends_on: depends_on.map(|s| s.to_string()),
        attempt: 0,
        timestamp: 5,
    }
}

#[test]
fn part_row_round_trips() {
    let mut db = CloudDb::new("root".to_string());
    let mut p = part("req.0", None);
    p.status = TransferStatus::Failed(CloudError::TaskRejectedByRelayer("busy".to_string()));
    p.job_id = Some("42".to_string());
    db.save_part(&p).unwrap();
    let q = db.get_part("req.0").unwrap();
    assert_eq!(p, q);
}

#[test]
fn missing_part_is_not_found() {
    let db = CloudDb::new("root".to_string());
    assert!(matches!(db.get_part("nope"), Err(CloudError::InternalError(_))));
}

#[test]
fn task_and_parts_persist_together() {
    // one save_task call makes the task row and every part row visible
    let mut db = CloudDb::new("root".to_string());
    let parts = vec![part("req.0", None), part("req.1", Some("req.0"))];
    let task = TransferTask {
        request_id: "req".to_string(),
        parts: vec!["req.0".to_string(), "req.1".to_string()],
    };
    db.save_task(&task, &parts).unwrap();

    assert!(db.task_exists("req").unwrap());
    assert!(!db.task_exists("other").unwrap());

    let (loaded_task, loaded_parts) = load_transfer(&db, "req").unwrap();
    assert_eq!(loaded_task.request_id, "req");
    assert_eq!(loaded_task.parts, task.parts);
    assert_eq!(loaded_parts, parts);
}

#[test]
fn transaction_id_index_round_trips() {
    let mut db = CloudDb::new("root".to_string());
    assert_eq!(db.get_transaction_id("0xabc").unwrap(), None);
    db.save_transaction_id("0xabc", "req").unwrap();
    assert_eq!(db.get_transaction_id("0xabc").unwrap(), Some("req".to_string()));
}

#[test]
fn report_task_round_trips() {
    let mut db = CloudDb::new("root".to_string());
    let task = ReportTask {
        status: ReportStatus::Completed,
        attempt: 2,
        report: Some(Report {
            timestamp: 99,
            pool_index: 256,
            accounts: vec![zkbob_cloud::cloud::types::AccountReport {
                id: "a".to_string(),
                description: "d".to_string(),
                balance: 5,
                max_transfer_amount: 4,
                address: "addr".to_string(),
                sk: "00ff".to_string(),
            }],
        }),
    };
    db.save_report_task("rid", &task).unwrap();
    let got = db.get_report_task("rid").unwrap().unwrap();
    assert_eq!(got, task);
    db.clean_reports().unwrap();
    assert_eq!(db.get_report_task("rid").unwrap(), None);
}

#[test]
fn clean_reports_leaves_other_columns_untouched() {
    let mut db = CloudDb::new("root".to_string());
    db.save_transaction_id("0xhash", "req-1").unwrap();
    let task = ReportTask { status: ReportStatus::New, attempt: 0, report: None };
    db.save_report_task("rid", &task).unwrap();
    db.clean_reports().unwrap();
    assert_eq!(db.get_report_task("rid").unwrap(), None);
    assert_eq!(db.get_transaction_id("0xhash").unwrap(), Some("req-1".to_string()));
}

#[test]
fn accounts_raw_lists_every_row_in_key_order() {
    let mut db = CloudDb::new("root".to_string());
    let data = |d: &str| zkbob_cloud::cloud::types::AccountData {
        description: d.to_string(),
        db_path: "p".to_string(),
        sk: "00".to_string(),
    };
    db.save_account("bb", &data("second")).unwrap();
    db.save_account("aa", &data("first")).unwrap();
    let rows = db.get_accounts_raw().unwrap();
    assert_eq!(rows.len(), 2);
    assert_eq!(rows[0].0, b"aa".to_vec());
    assert_eq!(rows[1].0, b"bb".to_vec());
    assert_eq!(
        zkbob_cloud::cloud::db::decode_account_data(&rows[0].1).unwrap().description,
        "first"
    );
}

#[test]
fn memo_rows_round_trip_in_index_order() {
    let mut db = AccountDb::new("root".to_string());
    let n = |b: u64| PlainNote { d: 3, p_d: Fr256 { hi: 7, lo: 8 }, b, t: 1 };
    let memo_a = DecMemo {
        index: 256,
        acc: Some(ShieldedAccount { d: 1, p_d: Fr256 { hi: 2, lo: 3 }, i: 4, b: 5, e: 6 }),
        in_notes: vec![IndexedNote { index: 257, note: n(70) }],
        out_notes: vec![IndexedNote { index: 257, note: n(70) }, IndexedNote {
            index: 258,
            note: n(30),
        }],
        tx_hash: Some("0xaa".to_string()),
    };
    let memo_b = DecMemo {
        index: 128,
        acc: None,
        in_notes: vec![],
        out_notes: vec![],
        tx_hash: Some("0xbb".to_string()),
    };
    db.save_memos(&vec![memo_a.clone(), memo_b.clone()]).unwrap();
    let got = db.get_memos().unwrap();
    // keyed big-endian by index, the store walks them in pool order
    assert_eq!(got, vec![memo_b, memo_a]);
}

#[test]
fn account_key_and_description_round_trip() {
    let mut db = AccountDb::new("root".to_string());
    assert_eq!(db.get_sk().unwrap(), None);
    db.save_sk(&vec![1, 2, 3]).unwrap();
    assert_eq!(db.get_sk().unwrap(), Some(vec![1, 2, 3]));
    db.save_description("hello").unwrap();
    assert_eq!(db.get_description().unwrap(), Some("hello".to_string()));
}

#[test]
fn hex_round_trips_and_agrees_with_the_reference() {
    let bytes = vec![0u8, 1, 15, 16, 171, 255];
    let ours = hex_encode(&bytes);
    assert_eq!(ours, hex::encode(&bytes));
    assert_eq!(hex_decode(&ours).unwrap(), bytes);
    assert_eq!(hex_decode("AB0f").unwrap(), vec![0xab, 0x0f]);
    assert_eq!(hex_decode("abc"), None);
    assert_eq!(hex_decode("zz"), None);
}

#[test]
fn uuid_validation_and_canonical_form() {
    assert!(is_valid_uuid("f47ac10b-58cc-4372-a567-0e02b2c3d479"));
    assert!(is_valid_uuid("F47AC10B-58CC-4372-A567-0E02B2C3D479"));
    assert!(!is_valid_uuid("f47ac10b58cc4372a5670e02b2c3d479"));
    assert!(!is_valid_uuid("not a uuid"));
    assert_eq!(
        canonical_uuid("F47AC10B-58CC-4372-A567-0E02B2C3D479"),
        "f47ac10b-58cc-4372-a567-0e02b2c3d479"
    );
    let fresh = fresh_uuid();
    assert!(is_valid_uuid(&fresh));
}

#[test]
fn registry_releases_handles() {
    // after release, the registry no longer holds the handle
    let mut reg: Registry<u32> = Registry::new();
    reg.insert("a".to_string(), 1);
    reg.insert("b".to_string(), 2);
    assert!(reg.get("a").is_some());
    reg.remove("a");
    assert!(reg.get("a").is_none());
    assert!(reg.get("b").is_some());
    reg.remove("missing");
    assert!(reg.get("b").is_some());
}

#[test]
fn relayer_record_parses() {
    let memo_bytes = vec![4u8, 0, 0, 0, 9, 9];
    let commitment = [7u8; 32];
    let mut s = String::from("1");
    s.push_str(&"ab".repeat(32));
    s.push_str(&hex::encode(commitment));
    s.push_str(&hex::encode(&memo_bytes));
    let tx = parse_relayer_record(256, &s).unwrap();
    assert_eq!(tx.index, 256);
    assert!(!tx.optimistic);
    assert_eq!(tx.tx_hash, format!("0x{}", "ab".repeat(32)));
    assert_eq!(tx.memo, memo_bytes);

    let mut o = String::from("0");
    o.push_str(&"cd".repeat(32));
    o.push_str(&hex::encode(commitment));
    o.push_str(&hex::encode(&memo_bytes));
    let tx = parse_relayer_record(384, &o).unwrap();
    assert!(tx.optimistic);

    assert!(parse_relayer_record(0, "too short").is_err());
}

#[test]
fn record_cache_steps_by_whole_records() {
    // cached windows step by 128 leaves per record
    let mut db = RelayerDb::new();
    let mk = |index: u64| Transaction {
        index,
        memo: vec![1, 2, 3],
        commitment: Fr256 { hi: 1, lo: 2 },
        tx_hash: format!("0x{index}"),
        optimistic: false,
    };
    db.save_txs(&vec![mk(0), mk(128), mk(384)]).unwrap();
    let got = db.get_txs(0, 10);
    assert_eq!(got.len(), 2);
    assert_eq!(got[0].index, 0);
    assert_eq!(got[1].index, 128);
    assert_eq!(got[1].memo, vec![1, 2, 3]);
    assert_eq!(got[1].tx_hash, "0x128");
    // the gap at 256 ends that window before reaching 384
    assert!(db.get_txs(256, 10).is_empty());
    assert_eq!(db.get_txs(384, 10).len(), 1);
}

#[test]
fn merge_keeps_mined_prefix_indices() {
    let commitment = [7u8; 32];
    let record = |mined: bool| {
        let mut s = String::from(if mined { "1" } else { "0" });
        s.push_str(&"ab".repeat(32));
        s.push_str(&hex::encode(commitment));
        s.push_str("0400000009");
        s
    };
    let cached = vec![Transaction {
        index: 0,
        memo: vec![],
        commitment: Fr256 { hi: 0, lo: 0 },
        tx_hash: "0x0".to_string(),
        optimistic: false,
    }];
    let fetched = vec![record(true), record(true), record(false)];
    let merged = merge_fetched(cached, &fetched, 128, false).unwrap();
    assert_eq!(merged.len(), 3);
    assert_eq!(merged[0].index, 0);
    assert_eq!(merged[1].index, 128);
    assert_eq!(merged[2].index, 256);

    let cached = vec![];
    let merged = merge_fetched(cached, &fetched, 128, true).unwrap();
    assert_eq!(merged.len(), 3);
    assert!(merged[2].optimistic);
}

#[test]
fn web3_cache_round_trips() {
    let mut db = Web3Db::new();
    assert_eq!(db.get_web3("0xabc"), None);
    let info = TxWeb3Info::Withdrawal(1000, 5, -105);
    db.save_web3("0xabc", &info).unwrap();
    assert_eq!(db.get_web3("0xabc"), Some(info));
    let dd = TxWeb3Info::DirectDeposit(2000, 3);
    db.save_web3("0xdd", &dd).unwrap();
    assert_eq!(db.get_web3("0xdd"), Some(dd));
}

#[test]
fn error_status_codes() {
    assert_eq!(CloudError::BadRequest("x".to_string()).status_code(), 400);
    assert_eq!(CloudError::AccountNotFound.status_code(), 400);
    assert_eq!(CloudError::IncorrectAccountId.status_code(), 400);
    assert_eq!(CloudError::DuplicateTransactionId.status_code(), 400);
    assert_eq!(CloudError::InvalidTransactionId.status_code(), 400);
    assert_eq!(CloudError::TransactionNotFound.status_code(), 400);
    assert_eq!(CloudError::AccessDenied.status_code(), 401);
    assert_eq!(CloudError::InsufficientBalance.status_code(), 500);
    assert_eq!(CloudError::RelayerSendError.status_code(), 500);
}
