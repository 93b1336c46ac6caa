use zkbob_cloud::account::planner::{get_tx_parts, max_transfer_amount};
use zkbob_cloud::cloud::cloud::{admit_transfer, build_transfer_parts, quote_fee};
use zkbob_cloud::cloud::types::Transfer;
use zkbob_cloud::errors::CloudError;

#[test]
fn single_part_when_balance_covers() {
    // account balance 1 000 000, fee 100: a 500 transfer is one part
    let parts = get_tx_parts(1_000_000, &vec![], 500, 100, "addr").unwrap();
    assert_eq!(parts.len(), 1);
    assert_eq!(parts[0], (Some("addr".to_string()), 500));
}

#[test]
fn multi_part_consolidates_notes() {
    // balance 40, fee 10, amount 150: the first chunk of three notes is
    // worth 100, too little, so it is consolidated as 100 - 10 = 90 and
    // the second chunk covers the rest
    let notes = vec![34, 33, 33, 40, 30, 30];
    let parts = get_tx_parts(40, &notes, 150, 10, "addr").unwrap();
    assert_eq!(parts.len(), 2);
    assert_eq!(parts[0], (None, 90));
    assert_eq!(parts[1], (Some("addr".to_string()), 150));

    let (count, total) = quote_fee(parts.len(), 10);
    assert_eq!(count, 2);
    assert_eq!(total, 20);
}

#[test]
fn insufficient_balance_fails() {
    let r = get_tx_parts(5, &vec![1, 2], 100, 10, "addr");
    assert_eq!(r.unwrap_err(), CloudError::InsufficientBalance);
}

#[test]
fn insufficient_with_no_notes() {
    let r = get_tx_parts(0, &vec![], 1, 1, "addr");
    assert!(matches!(r, Err(CloudError::InsufficientBalance)));
}

#[test]
fn max_transfer_covers_note_chunks() {
    // balance 40, three notes of 100, fee 10: one chunk of 300 raises the
    // spendable balance to 330
    assert_eq!(max_transfer_amount(40, &vec![100, 100, 100], 10), 330);
}

#[test]
fn max_transfer_without_notes() {
    assert_eq!(max_transfer_amount(40, &vec![], 10), 30);
    assert_eq!(max_transfer_amount(5, &vec![], 10), 0);
}

#[test]
fn parts_wire_their_predecessors() {
    // part i depends on part i - 1; part 0 depends on nothing
    let planned = vec![(None, 90u64), (Some("addr".to_string()), 150u64)];
    let (task, parts) = build_transfer_parts("req", "acc", &planned, 10, 7);
    assert_eq!(task.request_id, "req");
    assert_eq!(task.parts, vec!["req.0".to_string(), "req.1".to_string()]);
    assert_eq!(parts.len(), 2);
    assert_eq!(parts[0].id, "req.0");
    assert_eq!(parts[0].depends_on, None);
    assert_eq!(parts[1].id, "req.1");
    assert_eq!(parts[1].depends_on, Some("req.0".to_string()));
    assert_eq!(parts[0].amount, 90);
    assert_eq!(parts[1].amount, 150);
    assert_eq!(parts[1].to, Some("addr".to_string()));
    assert_eq!(parts[0].to, None);
    assert_eq!(parts[0].timestamp, 7);
}

#[test]
fn transfer_admission() {
    let req = Transfer {
        id: "a.b".to_string(),
        account_id: "x".to_string(),
        amount: 1,
        to: "addr".to_string(),
    };
    assert_eq!(admit_transfer(&req, false).unwrap_err(), CloudError::InvalidTransactionId);

    let req2 = Transfer { id: "ab".to_string(), ..req.clone() };
    assert_eq!(admit_transfer(&req2, true).unwrap_err(), CloudError::DuplicateTransactionId);
    assert!(admit_transfer(&req2, false).is_ok());
}

#[test]
fn fresh_account_is_empty_but_addressable() {
    // a fresh account has nothing to transfer, yet already has an address
    assert_eq!(max_transfer_amount(0, &vec![], 100), 0);
    let (eta, _) = zkbob_cloud::account::crypto::derive_account_keys(&vec![7u8; 32]);
    let address = zkbob_cloud::account::engine::generate_address(&eta, None);
    assert!(!address.is_empty());
    let again = zkbob_cloud::account::engine::generate_address(&eta, None);
    assert!(!again.is_empty());
}
