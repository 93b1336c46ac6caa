use libzkbob_rs::keys::{reduce_sk, Keys};
use libzkbob_rs::libzeropool::fawkes_crypto::ff_uint::Num;
use libzkbob_rs::libzeropool::native::account::Account;
use libzkbob_rs::libzeropool::native::boundednum::BoundedNum;
use libzkbob_rs::libzeropool::native::cipher;
use libzkbob_rs::libzeropool::native::key::derive_key_p_d;
use libzkbob_rs::libzeropool::native::note::Note as ZkNote;
use libzkbob_rs::libzeropool::native::params::PoolBN256;
use libzkbob_rs::libzeropool::POOL_PARAMS;

use zkbob_cloud::account::crypto::derive_account_keys;
use zkbob_cloud::account::tx_parser::parse_tx;
use zkbob_cloud::relayer::cached::Transaction;
use zkbob_cloud::Fr256;

#[test]
fn parses_a_real_encrypted_memo() {
    // encrypt a memo with the wallet library and read it back through the
    // library's own parser and trusted decryption boundary
    let seed = vec![7u8; 32];
    let keys: Keys<PoolBN256> = Keys::derive(reduce_sk(&seed), &*POOL_PARAMS);
    let (eta, kappa) = derive_account_keys(&seed);

    let params = &*POOL_PARAMS;
    let d_acc = BoundedNum::new(Num::from(5u64));
    let account = Account {
        d: d_acc,
        p_d: derive_key_p_d(d_acc.to_num(), keys.eta, params).x,
        i: BoundedNum::new(Num::ZERO),
        b: BoundedNum::new(Num::from(77u64)),
        e: BoundedNum::new(Num::ZERO),
    };

    // one note addressed to this account, one addressed elsewhere
    let d_mine = BoundedNum::new(Num::from(33u64));
    let mine = ZkNote {
        d: d_mine,
        p_d: derive_key_p_d(d_mine.to_num(), keys.eta, params).x,
        b: BoundedNum::new(Num::from(70u64)),
        t: BoundedNum::new(Num::from(9u64)),
    };
    let other_keys: Keys<PoolBN256> = Keys::derive(reduce_sk(&vec![9u8; 32]), &*POOL_PARAMS);
    let d_other = BoundedNum::new(Num::from(44u64));
    let other = ZkNote {
        d: d_other,
        p_d: derive_key_p_d(d_other.to_num(), other_keys.eta, params).x,
        b: BoundedNum::new(Num::from(30u64)),
        t: BoundedNum::new(Num::from(8u64)),
    };

    let entropy = vec![1u8; 32];
    let memo = cipher::encrypt(&entropy, &keys.kappa, account, &[mine, other], params);

    let tx = Transaction {
        index: 128,
        memo,
        commitment: Fr256 { hi: 0, lo: 0 },
        tx_hash: "0xfeed".to_string(),
        optimistic: false,
    };
    let parsed = parse_tx(&tx, &eta, &kappa).unwrap();

    assert_eq!(parsed.decrypted_memos.len(), 1);
    let dec = &parsed.decrypted_memos[0];
    assert_eq!(dec.index, 128);
    assert_eq!(dec.tx_hash, Some("0xfeed".to_string()));

    let acc = dec.acc.expect("the sender must see its own account state");
    assert_eq!(acc.b, 77);
    assert_eq!(acc.d, 5);

    // all minted notes are outgoing; only the one addressed to this
    // account is incoming
    assert_eq!(dec.out_notes.len(), 2);
    assert_eq!(dec.in_notes.len(), 1);
    assert_eq!(dec.in_notes[0].index, 129);
    assert_eq!(dec.in_notes[0].note.b, 70);
    assert_eq!(dec.in_notes[0].note.d, 33);
    assert_eq!(dec.out_notes[1].note.b, 30);

    // the state update carries the account and the incoming note
    assert_eq!(parsed.state_update.new_accounts.len(), 1);
    assert_eq!(parsed.state_update.new_accounts[0].0, 128);
    assert_eq!(parsed.state_update.new_notes.len(), 1);
    assert_eq!(parsed.state_update.new_notes[0].len(), 1);
    assert!(parsed.state_update.new_commitments.is_empty());
}

#[test]
fn foreign_memo_yields_only_a_commitment() {
    // a memo encrypted for someone else contributes only its commitment
    let seed_a = vec![7u8; 32];
    let seed_b = vec![9u8; 32];
    let keys_a: Keys<PoolBN256> = Keys::derive(reduce_sk(&seed_a), &*POOL_PARAMS);
    let (eta_b, kappa_b) = derive_account_keys(&seed_b);

    let params = &*POOL_PARAMS;
    let d_acc = BoundedNum::new(Num::from(5u64));
    let account = Account {
        d: d_acc,
        p_d: derive_key_p_d(d_acc.to_num(), keys_a.eta, params).x,
        i: BoundedNum::new(Num::ZERO),
        b: BoundedNum::new(Num::from(77u64)),
        e: BoundedNum::new(Num::ZERO),
    };
    let d_note = BoundedNum::new(Num::from(33u64));
    let note = ZkNote {
        d: d_note,
        p_d: derive_key_p_d(d_note.to_num(), keys_a.eta, params).x,
        b: BoundedNum::new(Num::from(70u64)),
        t: BoundedNum::new(Num::from(9u64)),
    };
    let entropy = vec![1u8; 32];
    let memo = cipher::encrypt(&entropy, &keys_a.kappa, account, &[note], params);

    let tx = Transaction {
        index: 0,
        memo,
        commitment: Fr256 { hi: 11, lo: 22 },
        tx_hash: "0xdead".to_string(),
        optimistic: false,
    };
    let parsed = parse_tx(&tx, &eta_b, &kappa_b).unwrap();
    assert!(parsed.decrypted_memos.is_empty());
    assert_eq!(parsed.state_update.new_commitments, vec![(0, Fr256 { hi: 11, lo: 22 })]);
    assert!(parsed.state_update.new_leafs.is_empty());
}

#[test]
fn short_memo_is_rejected() {
    let tx = Transaction {
        index: 5,
        memo: vec![1, 2],
        commitment: Fr256 { hi: 0, lo: 0 },
        tx_hash: "0x0".to_string(),
        optimistic: false,
    };
    let (eta, kappa) = derive_account_keys(&vec![7u8; 32]);
    let err = parse_tx(&tx, &eta, &kappa).unwrap_err();
    assert_eq!(err.index(), 5);
}
