use zkbob_cloud::cloud::cloud::validate_token;
use zkbob_cloud::cloud::send_worker::{send_preflight, send_submit_outcome, SendPreflight};
use zkbob_cloud::cloud::status_worker::{status_poll_outcome, status_preflight, JobStatus, StatusPreflight};
use zkbob_cloud::cloud::types::{TransferPart, TransferStatus};
use zkbob_cloud::errors::CloudError;

fn part(status: TransferStatus, depends_on: Option<&str>) -> TransferPart {
    TransferPart {
        id: "req.1".to_string(),
        request_id: "req".to_string(),
        account_id: "f47ac10b-58cc-4372-a567-0e02b2c3d479".to_string(),
        amount: 150,
        fee: 10,
        to: Some("addr".to_string()),
        status,
        job_id: Some("42".to_string()),
        tx_hash: None,
        depends_on: depends_on.map(|s| s.to_string()),
        attempt: 0,
        timestamp: 5,
    }
}

#[test]
fn redelivered_terminal_message_changes_nothing() {
    // a settled part is acknowledged untouched, whatever settled it
    for status in [TransferStatus::Done, TransferStatus::Failed(CloudError::RelayerSendError)] {
        match send_preflight(Ok(part(status.clone(), None)), None, 3, 9) {
            SendPreflight::Finish(r) => {
                assert!(r.delete);
                assert!(!r.check_status);
                assert!(r.update.is_none());
            },
            _ => panic!("terminal part must finish the round"),
        }
        match status_preflight(Ok(part(status, None))) {
            StatusPreflight::Finish(r) => {
                assert!(r.delete);
                assert!(!r.update);
                assert!(r.part.is_none());
            },
            _ => panic!("terminal part must finish the round"),
        }
    }
}

#[test]
fn part_waits_for_predecessor() {
    // the predecessor is still relaying: postpone, no state change
    let r = send_preflight(
        Ok(part(TransferStatus::New, Some("req.0"))),
        Some(Ok(TransferStatus::Relaying)),
        3,
        9,
    );
    match r {
        SendPreflight::Finish(r) => {
            assert!(!r.delete);
            assert!(!r.check_status);
            assert!(r.update.is_none());
        },
        _ => panic!("must postpone while the predecessor relays"),
    }

    // a mined predecessor lets the part through
    let r = send_preflight(
        Ok(part(TransferStatus::New, Some("req.0"))),
        Some(Ok(TransferStatus::Mining)),
        3,
        9,
    );
    assert!(matches!(r, SendPreflight::Ready(_)));
}

#[test]
fn predecessor_failure_cascades() {
    // part 0 failed: part 1 fails with PreviousTxFailed without any
    // relayer work
    let r = send_preflight(
        Ok(part(TransferStatus::New, Some("req.0"))),
        Some(Ok(TransferStatus::Failed(CloudError::RelayerSendError))),
        3,
        9,
    );
    match r {
        SendPreflight::Finish(r) => {
            assert!(r.delete);
            let p = r.update.unwrap();
            assert_eq!(p.status, TransferStatus::Failed(CloudError::PreviousTxFailed));
            assert_eq!(p.timestamp, 9);
        },
        _ => panic!("a failed predecessor must fail the part"),
    }
}

#[test]
fn bad_account_id_is_terminal() {
    let mut p = part(TransferStatus::New, None);
    p.account_id = "not-a-uuid".to_string();
    match send_preflight(Ok(p), None, 3, 9) {
        SendPreflight::Finish(r) => {
            let p = r.update.unwrap();
            assert_eq!(p.status, TransferStatus::Failed(CloudError::IncorrectAccountId));
        },
        _ => panic!("a bad account id must fail the part"),
    }
}

#[test]
fn submission_moves_part_to_relaying() {
    let r = send_submit_outcome(part(TransferStatus::New, None), Ok("job7".to_string()), 3, 9);
    assert!(r.delete);
    assert!(r.check_status);
    let p = r.update.unwrap();
    assert_eq!(p.status, TransferStatus::Relaying);
    assert_eq!(p.job_id, Some("job7".to_string()));
    assert_eq!(p.attempt, 0);
    assert_eq!(p.timestamp, 9);
}

#[test]
fn submission_errors_count_attempts() {
    let r = send_submit_outcome(
        part(TransferStatus::New, None),
        Err(CloudError::RelayerSendError),
        3,
        9,
    );
    assert!(!r.delete);
    assert_eq!(r.update.unwrap().attempt, 1);

    let mut exhausted = part(TransferStatus::New, None);
    exhausted.attempt = 3;
    let r = send_submit_outcome(exhausted, Err(CloudError::RelayerSendError), 3, 9);
    assert!(r.delete);
    assert_eq!(
        r.update.unwrap().status,
        TransferStatus::Failed(CloudError::RelayerSendError)
    );
}

#[test]
fn completed_job_finishes_the_part() {
    let r = status_poll_outcome(
        part(TransferStatus::Relaying, None),
        Ok(JobStatus { status: TransferStatus::Done, tx_hash: Some("0xabc".to_string()) }),
        3,
        9,
    );
    assert!(r.delete);
    assert!(r.update);
    assert!(r.save_transaction_id);
    let p = r.part.unwrap();
    assert_eq!(p.status, TransferStatus::Done);
    assert_eq!(p.tx_hash, Some("0xabc".to_string()));
}

#[test]
fn done_without_hash_retries() {
    let r = status_poll_outcome(
        part(TransferStatus::Relaying, None),
        Ok(JobStatus { status: TransferStatus::Done, tx_hash: None }),
        3,
        9,
    );
    assert!(!r.delete);
    assert_eq!(r.part.unwrap().attempt, 1);
}

#[test]
fn mining_job_keeps_polling() {
    let r = status_poll_outcome(
        part(TransferStatus::Relaying, None),
        Ok(JobStatus { status: TransferStatus::Mining, tx_hash: Some("0xdef".to_string()) }),
        3,
        9,
    );
    assert!(!r.delete);
    assert!(r.update);
    let p = r.part.unwrap();
    assert_eq!(p.status, TransferStatus::Mining);
    assert_eq!(p.tx_hash, Some("0xdef".to_string()));
}

#[test]
fn rejected_job_is_terminal() {
    let r = status_poll_outcome(
        part(TransferStatus::Mining, None),
        Ok(JobStatus {
            status: TransferStatus::Failed(CloudError::TaskRejectedByRelayer("no".to_string())),
            tx_hash: Some("0x1".to_string()),
        }),
        3,
        9,
    );
    assert!(r.delete);
    let p = r.part.unwrap();
    assert_eq!(
        p.status,
        TransferStatus::Failed(CloudError::TaskRejectedByRelayer("no".to_string()))
    );
    assert_eq!(p.tx_hash, Some("0x1".to_string()));
}

#[test]
fn relayer_status_strings() {
    assert_eq!(
        TransferStatus::from_relayer_response("waiting".to_string(), None),
        TransferStatus::Relaying
    );
    assert_eq!(
        TransferStatus::from_relayer_response("sent".to_string(), None),
        TransferStatus::Mining
    );
    assert_eq!(
        TransferStatus::from_relayer_response("completed".to_string(), None),
        TransferStatus::Done
    );
    assert_eq!(
        TransferStatus::from_relayer_response("reverted".to_string(), Some("why".to_string())),
        TransferStatus::Failed(CloudError::TaskRejectedByRelayer("why".to_string()))
    );
    assert_eq!(
        TransferStatus::from_relayer_response("failed".to_string(), None),
        TransferStatus::Failed(CloudError::TaskRejectedByRelayer(String::new()))
    );
    assert_eq!(
        TransferStatus::from_relayer_response("garbage".to_string(), None),
        TransferStatus::Failed(CloudError::RelayerSendError)
    );
    assert!(TransferStatus::Done.is_final());
    assert!(TransferStatus::Failed(CloudError::RelayerSendError).is_final());
    assert!(!TransferStatus::Relaying.is_final());
    assert_eq!(TransferStatus::Mining.status(), "Mining");
    assert_eq!(
        TransferStatus::Failed(CloudError::PreviousTxFailed).status(),
        "Failed"
    );
    assert_eq!(
        TransferStatus::Failed(CloudError::PreviousTxFailed).failure_reason(),
        Some("previous tx failed".to_string())
    );
    assert_eq!(TransferStatus::Done.failure_reason(), None);
}

#[test]
fn bearer_token_must_match_exactly() {
    assert!(validate_token("expected-token", "expected-token").is_ok());
    assert_eq!(
        validate_token("expected-token", "wrong").unwrap_err(),
        CloudError::AccessDenied
    );
    assert_eq!(validate_token("expected-token", "").unwrap_err(), CloudError::AccessDenied);
}
