//! Classifies one decrypted memo, together with its chain metadata, into
//! the history entries a user sees.
//!
//! A transfer memo yields one entry per incoming note and one per outgoing
//! note, except that a note appearing on both sides (a loopback: change
//! returning to the sender) yields exactly one `ReturnedChange` entry; a
//! transfer with no notes at all is a note consolidation and yields one
//! `AggregateNotes` entry.

use vstd::prelude::*;

use crate::account::crypto::address_of;
use crate::account::crypto::format_shielded_address;
use crate::account::tx_parser::{DecMemo, IndexedNote, ShieldedAccount};
use crate::web3::cached::TxWeb3Info;

verus! {

/// The kinds of history entry.
#[derive(Clone, Copy, Debug, PartialEq, Eq, Structural)]
pub enum HistoryTxType {
    Deposit,
    Withdrawal,
    TransferIn,
    TransferOut,
    ReturnedChange,
    AggregateNotes,
    DirectDeposit,
}

/// One history entry of an account.
#[derive(Clone, Debug, PartialEq, Eq)]
pub struct HistoryTx {
    pub tx_type: HistoryTxType,
    pub tx_hash: String,
    pub timestamp: u64,
    pub amount: u64,
    pub fee: u64,
    pub to: Option<String>,
}

/// Whether some note of `s` sits at leaf index `idx`.
pub open spec fn has_note_index(s: Seq<IndexedNote>, idx: u64) -> bool {
    exists|k: int| 0 <= k < s.len() && s[k].index == idx
}

/// The entry kind of incoming note `k`: change returning to the sender
/// when an outgoing note shares its leaf index, an ordinary incoming
/// transfer otherwise.
pub open spec fn in_entry_type(
    ins: Seq<IndexedNote>,
    outs: Seq<IndexedNote>,
    k: int,
) -> HistoryTxType {
    if has_note_index(outs, ins[k].index) {
        HistoryTxType::ReturnedChange
    } else {
        HistoryTxType::TransferIn
    }
}

/// The outgoing notes that get entries of their own: those whose leaf index
/// is not claimed by an incoming note, in order.
pub open spec fn outs_kept(ins: Seq<IndexedNote>, outs: Seq<IndexedNote>, n: int) -> Seq<
    IndexedNote,
>
    decreases n,
{
    if n <= 0 {
        Seq::empty()
    } else {
        outs_kept(ins, outs, n - 1) + if !has_note_index(ins, outs[n - 1].index) {
            seq![outs[n - 1]]
        } else {
            Seq::empty()
        }
    }
}

pub proof fn lemma_outs_kept_not_in(ins: Seq<IndexedNote>, outs: Seq<IndexedNote>, n: int)
    ensures
        forall|j: int|
            0 <= j < outs_kept(ins, outs, n).len() ==> !has_note_index(
                ins,
                (#[trigger] outs_kept(ins, outs, n)[j]).index,
            ),
    decreases n,
{
    if n > 0 {
        lemma_outs_kept_not_in(ins, outs, n - 1);
        let prev = outs_kept(ins, outs, n - 1);
        let cur = outs_kept(ins, outs, n);
        assert forall|j: int| 0 <= j < cur.len() implies !has_note_index(
            ins,
            (#[trigger] cur[j]).index,
        ) by {
            if j < prev.len() {
                assert(cur[j] == prev[j]);
            } else {
                assert(!has_note_index(ins, outs[n - 1].index));
                assert(cur[j] == outs[n - 1]);
            }
        }
    }
}

/// The loopback rule: a note listed among both the incoming and the
/// outgoing notes of one memo is classified exactly once, as
/// `ReturnedChange` — its incoming entry takes that kind, and no outgoing
/// entry is kept for its leaf index.
pub proof fn lemma_history_loopback(ins: Seq<IndexedNote>, outs: Seq<IndexedNote>, k: int)
    requires
        0 <= k < ins.len(),
        has_note_index(outs, ins[k].index),
    ensures
        in_entry_type(ins, outs, k) == HistoryTxType::ReturnedChange,
        forall|j: int|
            0 <= j < outs_kept(ins, outs, outs.len() as int).len() ==> (#[trigger] outs_kept(
                ins,
                outs,
                outs.len() as int,
            )[j]).index != ins[k].index,
{
    lemma_outs_kept_not_in(ins, outs, outs.len() as int);
    assert forall|j: int|
        0 <= j < outs_kept(ins, outs, outs.len() as int).len() implies (#[trigger] outs_kept(
        ins,
        outs,
        outs.len() as int,
    )[j]).index != ins[k].index by {
        assert(has_note_index(ins, ins[k].index));
    }
}

/// Whether a history entry is the one a given note produces.
pub open spec fn note_entry_matches(
    e: HistoryTx,
    ty: HistoryTxType,
    hash: Seq<char>,
    ts: u64,
    fee: u64,
    n: IndexedNote,
    pool_id: Option<u32>,
) -> bool {
    &&& e.tx_type == ty
    &&& e.tx_hash@ == hash
    &&& e.timestamp == ts
    &&& e.amount == n.note.b
    &&& e.fee == fee
    &&& e.to matches Some(a) && a@ == address_of(n.note.d, n.note.p_d, pool_id)
}

/// Whether a history entry is a whole-transaction record without an
/// address.
pub open spec fn plain_entry_matches(
    e: HistoryTx,
    ty: HistoryTxType,
    hash: Seq<char>,
    ts: u64,
    amount: u64,
    fee: u64,
) -> bool {
    &&& e.tx_type == ty
    &&& e.tx_hash@ == hash
    &&& e.timestamp == ts
    &&& e.amount == amount
    &&& e.fee == fee
    &&& e.to is None
}

/// Reports whether any note of `notes` sits at leaf index `idx`.
fn contains_index(notes: &Vec<IndexedNote>, idx: u64) -> (r: bool)
    ensures
        r == has_note_index(notes@, idx),
{
    let mut k: usize = 0;
    while k < notes.len()
        invariant
            k <= notes@.len(),
            forall|q: int| 0 <= q < k ==> (#[trigger] notes@[q]).index != idx,
        decreases notes@.len() - k,
    {
        if notes[k].index == idx {
            return true;
        }
        k = k + 1;
    }
    false
}

impl HistoryTx {
    /// Classifies one memo into its history entries.
    ///
    /// `last_account` is the account state carried by the nearest earlier
    /// memo, used to compute the consolidated amount of an
    /// `AggregateNotes` entry; `pool_id` feeds the address formatting.
    #[verifier::loop_isolation(false)]
    pub fn parse(
        memo: &DecMemo,
        info: &TxWeb3Info,
        last_account: Option<ShieldedAccount>,
        pool_id: Option<u32>,
    ) -> (r: Vec<HistoryTx>)
        requires
            memo.tx_hash is Some,
            forall|k: int|
                0 <= k < memo.in_notes@.len() ==> (#[trigger] memo.in_notes@[k]).note.d
                    < 0x1_0000_0000_0000_0000_0000,
            forall|k: int|
                0 <= k < memo.out_notes@.len() ==> (#[trigger] memo.out_notes@[k]).note.d
                    < 0x1_0000_0000_0000_0000_0000,
            (*info matches TxWeb3Info::Transfer(_, _, _) && memo.in_notes@.len() == 0
                && memo.out_notes@.len() == 0) ==> memo.acc is Some,
            *info matches TxWeb3Info::Withdrawal(_, f, ta) ==> ta <= i128::MAX - f && ta
                >= i128::MIN + f + 1,
        ensures
            ({
                let hash = memo.tx_hash.unwrap()@;
                let ins = memo.in_notes@;
                let outs = memo.out_notes@;
                match *info {
                    TxWeb3Info::Deposit(ts, fee, ta) => r@.len() == 1 && plain_entry_matches(
                        r@[0],
                        HistoryTxType::Deposit,
                        hash,
                        ts,
                        ta as u64,
                        fee,
                    ),
                    TxWeb3Info::DepositPermittable(ts, fee, ta) => r@.len() == 1
                        && plain_entry_matches(
                        r@[0],
                        HistoryTxType::Deposit,
                        hash,
                        ts,
                        ta as u64,
                        fee,
                    ),
                    TxWeb3Info::Withdrawal(ts, fee, ta) => r@.len() == 1 && plain_entry_matches(
                        r@[0],
                        HistoryTxType::Withdrawal,
                        hash,
                        ts,
                        (-(fee + ta)) as u64,
                        fee,
                    ),
                    TxWeb3Info::Transfer(ts, fee, _) => {
                        if ins.len() == 0 && outs.len() == 0 {
                            let prev: int = match last_account {
                                Some(acc) => acc.b as int,
                                None => 0,
                            };
                            r@.len() == 1 && plain_entry_matches(
                                r@[0],
                                HistoryTxType::AggregateNotes,
                                hash,
                                ts,
                                ((memo.acc.unwrap().b - prev) % 0x1_0000_0000_0000_0000) as u64,
                                fee,
                            )
                        } else {
                            let kept = outs_kept(ins, outs, outs.len() as int);
                            &&& r@.len() == ins.len() + kept.len()
                            &&& forall|k: int|
                                0 <= k < ins.len() ==> note_entry_matches(
                                    #[trigger] r@[k],
                                    in_entry_type(ins, outs, k),
                                    hash,
                                    ts,
                                    fee,
                                    ins[k],
                                    pool_id,
                                )
                            &&& forall|k: int|
                                0 <= k < kept.len() ==> note_entry_matches(
                                    #[trigger] r@[ins.len() + k],
                                    HistoryTxType::TransferOut,
                                    hash,
                                    ts,
                                    fee,
                                    kept[k],
                                    pool_id,
                                )
                        }
                    },
                    TxWeb3Info::DirectDeposit(ts, fee) => {
                        &&& r@.len() == ins.len()
                        &&& forall|k: int|
                            0 <= k < ins.len() ==> note_entry_matches(
                                #[trigger] r@[k],
                                HistoryTxType::DirectDeposit,
                                hash,
                                ts,
                                fee,
                                ins[k],
                                pool_id,
                            )
                    },
                }
            }),
    {
        let tx_hash: &String = match &memo.tx_hash {
            Some(h) => h,
            None => unreached(),
        };
        let mut history: Vec<HistoryTx> = Vec::new();
        match info {
            TxWeb3Info::Deposit(ts, fee, ta) => {
                history.push(
                    HistoryTx {
                        tx_type: HistoryTxType::Deposit,
                        tx_hash: tx_hash.clone(),
                        timestamp: *ts,
                        amount: #[verifier::truncate] (*ta as u64),
                        fee: *fee,
                        to: None,
                    },
                );
            },
            TxWeb3Info::DepositPermittable(ts, fee, ta) => {
                history.push(
                    HistoryTx {
                        tx_type: HistoryTxType::Deposit,
                        tx_hash: tx_hash.clone(),
                        timestamp: *ts,
                        amount: #[verifier::truncate] (*ta as u64),
                        fee: *fee,
                        to: None,
                    },
                );
            },
            TxWeb3Info::Withdrawal(ts, fee, ta) => {
                let total: i128 = *fee as i128 + *ta;
                history.push(
                    HistoryTx {
                        tx_type: HistoryTxType::Withdrawal,
                        tx_hash: tx_hash.clone(),
                        timestamp: *ts,
                        amount: #[verifier::truncate] ((-total) as u64),
                        fee: *fee,
                        to: None,
                    },
                );
            },
            TxWeb3Info::Transfer(ts, fee, _) => {
                let ins_len = memo.in_notes.len();
                let outs_len = memo.out_notes.len();
                if ins_len == 0 && outs_len == 0 {
                    let prev: u64 = match last_account {
                        Some(acc) => acc.b,
                        None => 0,
                    };
                    let cur: u64 = match &memo.acc {
                        Some(acc) => acc.b,
                        None => {
                            proof {
                                assert(false);
                            }
                            0
                        },
                    };
                    let amount: u64 = if cur >= prev {
                        cur - prev
                    } else {
                        ((cur as u128 + 0x1_0000_0000_0000_0000u128 - prev as u128) as u64)
                    };
                    history.push(
                        HistoryTx {
                            tx_type: HistoryTxType::AggregateNotes,
                            tx_hash: tx_hash.clone(),
                            timestamp: *ts,
                            amount,
                            fee: *fee,
                            to: None,
                        },
                    );
                } else {
                    let mut k: usize = 0;
                    while k < ins_len
                        invariant
                            ins_len == memo.in_notes@.len(),
                            k <= ins_len,
                            memo.tx_hash is Some,
                            tx_hash@ == memo.tx_hash.unwrap()@,
                            history@.len() == k,
                            forall|q: int|
                                0 <= q < k ==> note_entry_matches(
                                    #[trigger] history@[q],
                                    in_entry_type(memo.in_notes@, memo.out_notes@, q),
                                    memo.tx_hash.unwrap()@,
                                    *ts,
                                    *fee,
                                    memo.in_notes@[q],
                                    pool_id,
                                ),
                        decreases ins_len - k,
                    {
                        let note = memo.in_notes[k];
                        let loopback = contains_index(&memo.out_notes, note.index);
                        let tx_type = if loopback {
                            HistoryTxType::ReturnedChange
                        } else {
                            HistoryTxType::TransferIn
                        };
                        let address = format_shielded_address(note.note.d, &note.note.p_d, pool_id);
                        history.push(
                            HistoryTx {
                                tx_type,
                                tx_hash: tx_hash.clone(),
                                timestamp: *ts,
                                amount: note.note.b,
                                fee: *fee,
                                to: Some(address),
                            },
                        );
                        k = k + 1;
                    }
                    let mut k: usize = 0;
                    while k < outs_len
                        invariant
                            ins_len == memo.in_notes@.len(),
                            outs_len == memo.out_notes@.len(),
                            k <= outs_len,
                            memo.tx_hash is Some,
                            tx_hash@ == memo.tx_hash.unwrap()@,
                            history@.len() == ins_len + outs_kept(
                                memo.in_notes@,
                                memo.out_notes@,
                                k as int,
                            ).len(),
                            forall|q: int|
                                0 <= q < ins_len ==> note_entry_matches(
                                    #[trigger] history@[q],
                                    in_entry_type(memo.in_notes@, memo.out_notes@, q),
                                    memo.tx_hash.unwrap()@,
                                    *ts,
                                    *fee,
                                    memo.in_notes@[q],
                                    pool_id,
                                ),
                            forall|q: int|
                                0 <= q < outs_kept(memo.in_notes@, memo.out_notes@, k as int).len()
                                    ==> note_entry_matches(
                                    #[trigger] history@[ins_len + q],
                                    HistoryTxType::TransferOut,
                                    memo.tx_hash.unwrap()@,
                                    *ts,
                                    *fee,
                                    outs_kept(memo.in_notes@, memo.out_notes@, k as int)[q],
                                    pool_id,
                                ),
                        decreases outs_len - k,
                    {
                        let note = memo.out_notes[k];
                        let covered = contains_index(&memo.in_notes, note.index);
                        if !covered {
                            let address = format_shielded_address(
                                note.note.d,
                                &note.note.p_d,
                                pool_id,
                            );
                            history.push(
                                HistoryTx {
                                    tx_type: HistoryTxType::TransferOut,
                                    tx_hash: tx_hash.clone(),
                                    timestamp: *ts,
                                    amount: note.note.b,
                                    fee: *fee,
                                    to: Some(address),
                                },
                            );
                        }
                        proof {
                            assert(outs_kept(memo.in_notes@, memo.out_notes@, k as int + 1)
                                =~= outs_kept(memo.in_notes@, memo.out_notes@, k as int)
                                + if !has_note_index(memo.in_notes@, memo.out_notes@[k as int].index) {
                                    seq![memo.out_notes@[k as int]]
                                } else {
                                    Seq::<IndexedNote>::empty()
                                });
                        }
                        k = k + 1;
                    }
                }
            },
            TxWeb3Info::DirectDeposit(ts, fee) => {
                let ins_len = memo.in_notes.len();
                let mut k: usize = 0;
                while k < ins_len
                    invariant
                        ins_len == memo.in_notes@.len(),
                        k <= ins_len,
                        memo.tx_hash is Some,
                        tx_hash@ == memo.tx_hash.unwrap()@,
                        history@.len() == k,
                        forall|q: int|
                            0 <= q < k ==> note_entry_matches(
                                #[trigger] history@[q],
                                HistoryTxType::DirectDeposit,
                                memo.tx_hash.unwrap()@,
                                *ts,
                                *fee,
                                memo.in_notes@[q],
                                pool_id,
                            ),
                    decreases ins_len - k,
                {
                    let note = memo.in_notes[k];
                    let address = format_shielded_address(note.note.d, &note.note.p_d, pool_id);
                    history.push(
                        HistoryTx {
                            tx_type: HistoryTxType::DirectDeposit,
                            tx_hash: tx_hash.clone(),
                            timestamp: *ts,
                            amount: note.note.b,
                            fee: *fee,
                            to: Some(address),
                        },
                    );
                    k = k + 1;
                }
            },
        }
        history
    }
}

} // verus!
