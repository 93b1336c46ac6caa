//! The pool calldata parser against hand-built `transact()` payloads, and
//! the selector constants against the Keccak-256 digests they abbreviate.

use zkbob_cloud::account::web3::Web3TxType;
use zkbob_cloud::web3::cached::{classify_web3, parse_pool_calldata, PoolCalldata, TxWeb3Info};

/// A minimal `transact()` calldata: the selector, the token amount at
/// offset 88, the type tag at 640, the memo size at 642 and the memo — its
/// leading eight bytes the fee — at 644.
fn transact_calldata(tx_type: u16, token_amount: i64, fee: u64, memo_len: usize) -> Vec<u8> {
    let mut b = vec![0u8; 644 + memo_len];
    b[0..4].copy_from_slice(&[0xaf, 0x98, 0x90, 0x83]);
    b[88..96].copy_from_slice(&token_amount.to_be_bytes());
    b[640..642].copy_from_slice(&tx_type.to_be_bytes());
    b[642..644].copy_from_slice(&(memo_len as u16).to_be_bytes());
    if memo_len >= 8 {
        b[644..652].copy_from_slice(&fee.to_be_bytes());
    }
    b
}

#[test]
fn transact_selector_is_keccak_of_signature() {
    let digest = libzkbob_rs::utils::keccak256(b"transact()");
    assert_eq!(&digest[0..4], &[0xaf, 0x98, 0x90, 0x83]);
}

#[test]
fn append_direct_deposits_selector_is_keccak_of_signature() {
    let digest = libzkbob_rs::utils::keccak256(
        b"appendDirectDeposits(uint256,uint256[],uint256,uint256[8],uint256[8])",
    );
    assert_eq!(&digest[0..4], &[0x1d, 0xc4, 0xcb, 0x33]);
}

#[test]
fn parses_each_transact_kind() {
    for (tag, kind) in [
        (0u16, Web3TxType::Deposit),
        (1, Web3TxType::Transfer),
        (2, Web3TxType::Withdrawal),
        (3, Web3TxType::DepositPermittable),
    ] {
        let b = transact_calldata(tag, 1_000_000, 77, 8);
        assert_eq!(parse_pool_calldata(&b), PoolCalldata::Transact(kind, 77, 1_000_000));
    }
}

#[test]
fn token_amount_is_sign_extended() {
    let b = transact_calldata(2, -123_456_789, 5, 8);
    assert_eq!(
        parse_pool_calldata(&b),
        PoolCalldata::Transact(Web3TxType::Withdrawal, 5, -123_456_789)
    );
}

#[test]
fn fee_is_read_from_the_memo_prefix() {
    let b = transact_calldata(1, 0, 0xDEAD_BEEF_0102_0304, 40);
    assert_eq!(
        parse_pool_calldata(&b),
        PoolCalldata::Transact(Web3TxType::Transfer, 0xDEAD_BEEF_0102_0304, 0)
    );
}

#[test]
fn unknown_type_tag_is_unknown() {
    let b = transact_calldata(4, 0, 1, 8);
    assert_eq!(parse_pool_calldata(&b), PoolCalldata::Unknown);
}

#[test]
fn truncated_calldata_is_unknown() {
    assert_eq!(parse_pool_calldata(&[]), PoolCalldata::Unknown);
    assert_eq!(parse_pool_calldata(&[0xaf, 0x98, 0x90]), PoolCalldata::Unknown);
    assert_eq!(parse_pool_calldata(&[0xaf, 0x98, 0x90, 0x83, 0, 0]), PoolCalldata::Unknown);
    let mut b = transact_calldata(1, 0, 1, 8);
    b.truncate(650);
    assert_eq!(parse_pool_calldata(&b), PoolCalldata::Unknown);
}

#[test]
fn memo_shorter_than_its_fee_field_is_unknown() {
    let b = transact_calldata(1, 0, 0, 4);
    assert_eq!(parse_pool_calldata(&b), PoolCalldata::Unknown);
}

#[test]
fn memo_size_past_the_calldata_is_unknown() {
    let mut b = transact_calldata(1, 0, 1, 8);
    b[642..644].copy_from_slice(&100u16.to_be_bytes());
    assert_eq!(parse_pool_calldata(&b), PoolCalldata::Unknown);
}

#[test]
fn trailing_bytes_after_the_memo_are_allowed() {
    let mut b = transact_calldata(0, 42, 9, 8);
    b.extend_from_slice(&[0u8; 64]);
    assert_eq!(parse_pool_calldata(&b), PoolCalldata::Transact(Web3TxType::Deposit, 9, 42));
}

#[test]
fn append_direct_deposit_selector_parses() {
    let b = vec![0x1d, 0xc4, 0xcb, 0x33];
    assert_eq!(parse_pool_calldata(&b), PoolCalldata::AppendDirectDeposit);
}

#[test]
fn foreign_selector_is_unknown() {
    let b = vec![0x01, 0x02, 0x03, 0x04];
    assert_eq!(parse_pool_calldata(&b), PoolCalldata::Unknown);
}

#[test]
fn parsed_calldata_classifies_end_to_end() {
    let b = transact_calldata(3, -7, 11, 8);
    let parsed = parse_pool_calldata(&b);
    assert_eq!(
        classify_web3(&parsed, 1_700_000_000, 0),
        Ok(TxWeb3Info::DepositPermittable(1_700_000_000, 11, -7))
    );
    let dd = parse_pool_calldata(&[0x1d, 0xc4, 0xcb, 0x33]);
    assert_eq!(
        classify_web3(&dd, 1_700_000_000, 500),
        Ok(TxWeb3Info::DirectDeposit(1_700_000_000, 500))
    );
}
