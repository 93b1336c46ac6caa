//! Decrypts a batch of pool records against one account's viewing key and
//! derives the state update the account applies to its tree and note set.
//!
//! A record's memo starts with a 4-byte little-endian prefix. With the top
//! flag bit set the memo carries that many delegated deposits; otherwise the
//! prefix counts the record's tree leaves, at most `OUT + 1` of them. All
//! decryption and hashing is delegated to the wallet-crypto layer through
//! the named wrappers of [`crate::account::crypto`].

use vstd::prelude::*;

use crate::Fr256;
use crate::account::crypto::{
    be_nat, be_u128_range, be_u64_at, dd_leaf_row, dd_leaf_row_of, decrypt_in_of, decrypt_out_of,
    derive_note_p_d, derived_p_d, fr_from_le_bytes, fr_reduce_be, fr_reduce_be_at, fr_reduce_le,
    le_u32_at, lemma_be_nat_bound, pow256, try_decrypt_in, try_decrypt_out, DD_ENTRY_SIZE,
};
use crate::errors::CloudError;
use crate::relayer::cached::{Transaction, TransactionModel};

verus! {

/// The prefix bit that marks a delegated-deposit memo.
pub const DD_FLAG: u32 = 0x0100_0000;

/// The largest tree index the parser accepts; bounding it keeps every leaf
/// position representable. The pool tree is far shallower than this.
pub const MAX_TREE_INDEX: u64 = 0xFFFF_FFFF_0000_0000;

/// Why one record of a batch was rejected; the payload starts with the
/// record's pool index.
#[derive(Clone, Debug, PartialEq, Eq)]
pub enum ParseError {
    /// The memo is shorter than its 4-byte prefix.
    NoPrefix(u64),
    /// The prefix announces more hashes than a record can carry: the actual
    /// count and the allowed maximum follow the index.
    IncorrectPrefix(u64, u32, u32),
}

impl ParseError {
    /// The pool index of the record that failed to parse.
    pub fn index(&self) -> (r: u64)
        ensures
            r == match *self {
                ParseError::NoPrefix(idx) => idx,
                ParseError::IncorrectPrefix(idx, _, _) => idx,
            },
    {
        match *self {
            ParseError::NoPrefix(idx) => idx,
            ParseError::IncorrectPrefix(idx, _, _) => idx,
        }
    }
}

/// A decrypted note, in plain form: diversifier, receiver key part, balance
/// and salt.
#[derive(Clone, Copy, Debug, PartialEq, Eq, Structural)]
pub struct PlainNote {
    pub d: u128,
    pub p_d: Fr256,
    pub b: u64,
    pub t: u128,
}

/// A decrypted account state, in plain form.
#[derive(Clone, Copy, Debug, PartialEq, Eq, Structural)]
pub struct ShieldedAccount {
    pub d: u128,
    pub p_d: Fr256,
    pub i: u64,
    pub b: u64,
    pub e: u128,
}

/// A note together with its leaf position in the pool tree.
#[derive(Clone, Copy, Debug, PartialEq, Eq, Structural)]
pub struct IndexedNote {
    pub index: u64,
    pub note: PlainNote,
}

/// What a parsed batch tells the account to apply: new leaf rows, bare
/// commitments for records that did not concern the account, decrypted
/// account states, and the account's own new notes grouped per record.
#[derive(Clone, Debug, PartialEq, Eq)]
pub struct StateUpdate {
    pub new_leafs: Vec<(u64, Vec<Fr256>)>,
    pub new_commitments: Vec<(u64, Fr256)>,
    pub new_accounts: Vec<(u64, ShieldedAccount)>,
    pub new_notes: Vec<Vec<(u64, PlainNote)>>,
}

impl StateUpdate {
    pub fn empty() -> (r: StateUpdate)
        ensures
            r.new_leafs@.len() == 0,
            r.new_commitments@.len() == 0,
            r.new_accounts@.len() == 0,
            r.new_notes@.len() == 0,
    {
        StateUpdate {
            new_leafs: Vec::new(),
            new_commitments: Vec::new(),
            new_accounts: Vec::new(),
            new_notes: Vec::new(),
        }
    }
}

/// One decrypted memo, as persisted in the account's history: the record's
/// index, the account state it carried if the account wrote it, the notes
/// the account can spend, all notes the transaction minted when the account
/// wrote it, and the chain transaction hash.
#[derive(Clone, Debug, PartialEq, Eq)]
pub struct DecMemo {
    pub index: u64,
    pub acc: Option<ShieldedAccount>,
    pub in_notes: Vec<IndexedNote>,
    pub out_notes: Vec<IndexedNote>,
    pub tx_hash: Option<String>,
}

/// The outcome of parsing a batch: the memos the account could decrypt and
/// the state update to apply.
#[derive(Clone, Debug, PartialEq, Eq)]
pub struct ParseResult {
    pub decrypted_memos: Vec<DecMemo>,
    pub state_update: StateUpdate,
}

/// Spec-level form of a [`DecMemo`], with sequences in place of vectors.
#[verifier::ext_equal]
pub ghost struct DecMemoModel {
    pub index: u64,
    pub acc: Option<ShieldedAccount>,
    pub in_notes: Seq<IndexedNote>,
    pub out_notes: Seq<IndexedNote>,
    pub tx_hash: Option<Seq<char>>,
}

/// Spec-level form of a [`StateUpdate`].
#[verifier::ext_equal]
pub ghost struct StateUpdateModel {
    pub new_leafs: Seq<(u64, Seq<Fr256>)>,
    pub new_commitments: Seq<(u64, Fr256)>,
    pub new_accounts: Seq<(u64, ShieldedAccount)>,
    pub new_notes: Seq<Seq<(u64, PlainNote)>>,
}

/// Spec-level form of a [`ParseResult`].
#[verifier::ext_equal]
pub ghost struct ParseResultModel {
    pub decrypted_memos: Seq<DecMemoModel>,
    pub state_update: StateUpdateModel,
}

impl View for DecMemo {
    type V = DecMemoModel;

    open spec fn view(&self) -> DecMemoModel {
        DecMemoModel {
            index: self.index,
            acc: self.acc,
            in_notes: self.in_notes@,
            out_notes: self.out_notes@,
            tx_hash: match self.tx_hash {
                Some(h) => Some(h@),
                None => None,
            },
        }
    }
}

impl View for StateUpdate {
    type V = StateUpdateModel;

    open spec fn view(&self) -> StateUpdateModel {
        StateUpdateModel {
            new_leafs: Seq::new(self.new_leafs@.len(), |i: int| (self.new_leafs@[i].0, self.new_leafs@[i].1@)),
            new_commitments: self.new_commitments@,
            new_accounts: self.new_accounts@,
            new_notes: Seq::new(self.new_notes@.len(), |i: int| self.new_notes@[i]@),
        }
    }
}

impl View for ParseResult {
    type V = ParseResultModel;

    open spec fn view(&self) -> ParseResultModel {
        ParseResultModel {
            decrypted_memos: Seq::new(
                self.decrypted_memos@.len(),
                |i: int| self.decrypted_memos@[i]@,
            ),
            state_update: self.state_update@,
        }
    }
}

// --- The memo grammar, at spec level -----------------------------------

/// The 4-byte little-endian prefix of a memo.
pub open spec fn prefix_of(memo: Seq<u8>) -> u32 {
    be_nat(seq![memo[3], memo[2], memo[1], memo[0]]) as u32
}

pub open spec fn prefix_is_dd(p: u32) -> bool {
    p & DD_FLAG != 0
}

/// The item count carried by the prefix: the number of delegated deposits
/// with the flag stripped, or the number of tree leaves. In a regular
/// memo the count occupies the low half of the prefix; the upper half
/// names the encryption scheme and does not concern the parser.
pub open spec fn prefix_count(p: u32) -> u32 {
    if prefix_is_dd(p) {
        p ^ DD_FLAG
    } else {
        p & 0xFFFF
    }
}

/// One delegated-deposit entry, as read from its 58 bytes.
pub ghost struct DdEntry {
    pub receiver_d: u128,
    pub receiver_p: Fr256,
    pub amount: u64,
}

pub open spec fn dd_entry_at(memo: Seq<u8>, i: int) -> DdEntry {
    let base = 4 + 58 * i;
    DdEntry {
        receiver_d: be_nat(memo.subrange(base + 8, base + 18)) as u128,
        receiver_p: fr_reduce_be(memo.subrange(base + 18, base + 50)),
        amount: be_nat(memo.subrange(base + 50, base + 58)) as u64,
    }
}

/// How many whole entries the memo really carries of the announced count.
pub open spec fn dd_entry_count(memo: Seq<u8>, count: u32) -> int {
    let whole = (memo.len() - 4) / 58;
    if count <= whole {
        count as int
    } else {
        whole
    }
}

/// The note minted by one delegated deposit: its salt is zero.
pub open spec fn dd_note(e: DdEntry) -> PlainNote {
    PlainNote { d: e.receiver_d, p_d: e.receiver_p, b: e.amount, t: 0 }
}

/// Whether entry `i` pays this account: its stored receiver key part must
/// equal the one derived from its diversifier and the account's viewing
/// key.
pub open spec fn dd_matches(memo: Seq<u8>, eta: Fr256, i: int) -> bool {
    derived_p_d(dd_entry_at(memo, i).receiver_d, eta) == dd_entry_at(memo, i).receiver_p
}

/// The account's notes among the first `n` delegated deposits, at leaf
/// positions `index + 1 + i`.
pub open spec fn dd_in_notes(memo: Seq<u8>, eta: Fr256, index: u64, n: int) -> Seq<IndexedNote>
    decreases n,
{
    if n <= 0 {
        Seq::empty()
    } else {
        dd_in_notes(memo, eta, index, n - 1) + if dd_matches(memo, eta, n - 1) {
            seq![
                IndexedNote {
                    index: (index + 1 + (n - 1)) as u64,
                    note: dd_note(dd_entry_at(memo, n - 1)),
                },
            ]
        } else {
            Seq::empty()
        }
    }
}

/// How many leaf hashes a regular memo really carries of the announced
/// count: 32 bytes each, the last one possibly short.
pub open spec fn n_leaves(memo: Seq<u8>, count: u32) -> int {
    let whole = (memo.len() - 4 + 31) / 32;
    if count <= whole {
        count as int
    } else {
        whole
    }
}

/// A short trailing chunk reads as if zero-padded to 32 bytes.
pub open spec fn padded32(s: Seq<u8>) -> Seq<u8> {
    s + Seq::new((32 - s.len()) as nat, |i: int| 0u8)
}

pub open spec fn leaf_chunk(memo: Seq<u8>, i: int) -> Seq<u8> {
    memo.subrange(
        4 + 32 * i,
        if 4 + 32 * i + 32 <= memo.len() {
            4 + 32 * i + 32
        } else {
            memo.len() as int
        },
    )
}

/// The leaf hashes of a regular memo: each 32-byte chunk read
/// little-endian and reduced into the field.
pub open spec fn leaves_of(memo: Seq<u8>, count: u32) -> Seq<Fr256> {
    Seq::new(n_leaves(memo, count) as nat, |i: int| fr_reduce_le(padded32(leaf_chunk(memo, i))))
}

/// All notes of a sender-decrypted memo, at leaf positions `index + 1 + i`.
pub open spec fn out_notes_of(notes: Seq<PlainNote>, index: u64) -> Seq<IndexedNote> {
    Seq::new(notes.len(), |i: int| IndexedNote { index: (index + 1 + i) as u64, note: notes[i] })
}

/// Of the first `n` notes, those whose receiver key part is the account's
/// own: the change coming back to the sender.
pub open spec fn sender_in_notes(notes: Seq<PlainNote>, eta: Fr256, index: u64, n: int) -> Seq<
    IndexedNote,
>
    decreases n,
{
    if n <= 0 {
        Seq::empty()
    } else {
        sender_in_notes(notes, eta, index, n - 1) + if notes[n - 1].p_d == derived_p_d(
            notes[n - 1].d,
            eta,
        ) {
            seq![IndexedNote { index: (index + 1 + (n - 1)) as u64, note: notes[n - 1] }]
        } else {
            Seq::empty()
        }
    }
}

/// Of the first `n` per-note decryptions, those that decrypted and pay
/// this account.
pub open spec fn receiver_in_notes(
    dec: Seq<Option<PlainNote>>,
    eta: Fr256,
    index: u64,
    n: int,
) -> Seq<IndexedNote>
    decreases n,
{
    if n <= 0 {
        Seq::empty()
    } else {
        receiver_in_notes(dec, eta, index, n - 1) + match dec[n - 1] {
            Some(note) => if note.p_d == derived_p_d(note.d, eta) {
                seq![IndexedNote { index: (index + 1 + (n - 1)) as u64, note }]
            } else {
                Seq::empty()
            },
            None => Seq::empty(),
        }
    }
}

pub open spec fn pairs_of(s: Seq<IndexedNote>) -> Seq<(u64, PlainNote)> {
    Seq::new(s.len(), |i: int| (s[i].index, s[i].note))
}

/// Why a record is rejected, if it is: a memo shorter than its prefix, or
/// a regular prefix announcing more leaves than a record can carry.
pub open spec fn parse_tx_err(index: u64, memo: Seq<u8>) -> Option<ParseError> {
    if memo.len() < 4 {
        Some(ParseError::NoPrefix(index))
    } else if !prefix_is_dd(prefix_of(memo)) && prefix_count(prefix_of(memo)) > 128 {
        Some(ParseError::IncorrectPrefix(index, prefix_count(prefix_of(memo)), 128))
    } else {
        None
    }
}

/// Splits a memo's prefix into the delegated-deposit flag and the item
/// count.
pub fn parse_prefix(memo: &Vec<u8>) -> (r: (bool, u32))
    requires
        memo@.len() >= 4,
    ensures
        r.0 == prefix_is_dd(prefix_of(memo@)),
        r.1 == prefix_count(prefix_of(memo@)),
{
    let p = le_u32_at(memo.as_slice(), 0);
    proof {
        lemma_be_nat_bound(seq![memo@[3], memo@[2], memo@[1], memo@[0]]);
        reveal_with_fuel(pow256, 5);
        assert(pow256(4) == 0x1_0000_0000);
        assert(prefix_of(memo@) == p);
    }
    let is_dd = p & DD_FLAG != 0;
    let count = if is_dd {
        p ^ DD_FLAG
    } else {
        p & 0xFFFF
    };
    (is_dd, count)
}

pub open spec fn empty_state_model() -> StateUpdateModel {
    StateUpdateModel {
        new_leafs: Seq::empty(),
        new_commitments: Seq::empty(),
        new_accounts: Seq::empty(),
        new_notes: Seq::empty(),
    }
}

/// What parsing one well-formed record yields.
pub open spec fn parse_tx_model(tx: TransactionModel, eta: Fr256, kappa: Fr256) -> ParseResultModel {
    let p = prefix_of(tx.memo);
    let count = prefix_count(p);
    if prefix_is_dd(p) {
        let n = dd_entry_count(tx.memo, count);
        let in_notes = dd_in_notes(tx.memo, eta, tx.index, n);
        if in_notes.len() > 0 {
            ParseResultModel {
                decrypted_memos: seq![
                    DecMemoModel {
                        index: tx.index,
                        acc: None,
                        in_notes,
                        out_notes: Seq::empty(),
                        tx_hash: Some(tx.tx_hash),
                    },
                ],
                state_update: StateUpdateModel {
                    new_leafs: seq![(tx.index, dd_leaf_row_of(tx.memo, n))],
                    new_commitments: Seq::empty(),
                    new_accounts: Seq::empty(),
                    new_notes: seq![pairs_of(in_notes)],
                },
            }
        } else {
            ParseResultModel {
                decrypted_memos: Seq::empty(),
                state_update: StateUpdateModel {
                    new_leafs: Seq::empty(),
                    new_commitments: seq![(tx.index, tx.commitment)],
                    new_accounts: Seq::empty(),
                    new_notes: Seq::empty(),
                },
            }
        }
    } else {
        let leaves = leaves_of(tx.memo, count);
        match decrypt_out_of(eta, kappa, tx.memo) {
            Some((acc, notes)) => {
                let in_notes = sender_in_notes(notes, eta, tx.index, notes.len() as int);
                ParseResultModel {
                    decrypted_memos: seq![
                        DecMemoModel {
                            index: tx.index,
                            acc: Some(acc),
                            in_notes,
                            out_notes: out_notes_of(notes, tx.index),
                            tx_hash: Some(tx.tx_hash),
                        },
                    ],
                    state_update: StateUpdateModel {
                        new_leafs: seq![(tx.index, leaves)],
                        new_commitments: Seq::empty(),
                        new_accounts: seq![(tx.index, acc)],
                        new_notes: seq![pairs_of(in_notes)],
                    },
                }
            },
            None => {
                let dec = decrypt_in_of(eta, tx.memo);
                let in_notes = receiver_in_notes(dec, eta, tx.index, dec.len() as int);
                if in_notes.len() > 0 {
                    ParseResultModel {
                        decrypted_memos: seq![
                            DecMemoModel {
                                index: tx.index,
                                acc: None,
                                in_notes,
                                out_notes: Seq::empty(),
                                tx_hash: Some(tx.tx_hash),
                            },
                        ],
                        state_update: StateUpdateModel {
                            new_leafs: seq![(tx.index, leaves)],
                            new_commitments: Seq::empty(),
                            new_accounts: Seq::empty(),
                            new_notes: seq![pairs_of(in_notes)],
                        },
                    }
                } else {
                    ParseResultModel {
                        decrypted_memos: Seq::empty(),
                        state_update: StateUpdateModel {
                            new_leafs: Seq::empty(),
                            new_commitments: seq![(tx.index, tx.commitment)],
                            new_accounts: Seq::empty(),
                            new_notes: Seq::empty(),
                        },
                    }
                }
            },
        }
    }
}

/// Parses one pool record against the account's keys.
///
/// The result is exactly [`parse_tx_model`] of the record; the two error
/// cases are exactly those of [`parse_tx_err`]. A delegated-deposit memo
/// whose byte count falls short of its announced entry count contributes
/// only the whole entries it carries.
pub fn parse_tx(tx: &Transaction, eta: &Fr256, kappa: &Fr256) -> (r: Result<
    ParseResult,
    ParseError,
>)
    requires
        tx.index <= MAX_TREE_INDEX,
        tx.memo@.len() <= 0x1000_0000,
    ensures
        r is Err <==> parse_tx_err(tx.index, tx.memo@) is Some,
        r matches Err(e) ==> parse_tx_err(tx.index, tx.memo@) == Some(e),
        r matches Ok(pr) ==> pr@ == parse_tx_model(tx@, *eta, *kappa),
{
    let memo_len = tx.memo.len();
    if memo_len < 4 {
        return Err(ParseError::NoPrefix(tx.index));
    }
    let (is_dd, count) = parse_prefix(&tx.memo);

    if is_dd {
        let whole = (memo_len - 4) / DD_ENTRY_SIZE;
        let n = if (count as usize) <= whole {
            count as usize
        } else {
            whole
        };
        proof {
            assert(n as int == dd_entry_count(tx.memo@, count));
        }
        let mut in_notes: Vec<IndexedNote> = Vec::new();
        let mut i: usize = 0;
        while i < n
            invariant
                tx.index <= MAX_TREE_INDEX,
                tx.memo@.len() <= 0x1000_0000,
                tx.memo@.len() == memo_len,
                n * DD_ENTRY_SIZE <= memo_len - 4,
                n <= 0x1000_0000,
                i <= n,
                in_notes@ == dd_in_notes(tx.memo@, *eta, tx.index, i as int),
            decreases n - i,
        {
            let base = 4 + DD_ENTRY_SIZE * i;
            proof {
                assert((i + 1) * DD_ENTRY_SIZE <= n * DD_ENTRY_SIZE) by (nonlinear_arith)
                    requires
                        i + 1 <= n,
                ;
                assert(DD_ENTRY_SIZE * i == i * DD_ENTRY_SIZE) by (nonlinear_arith);
                lemma_be_nat_bound(tx.memo@.subrange(base + 8, base + 18));
                lemma_be_nat_bound(tx.memo@.subrange(base + 50, base + 58));
                reveal_with_fuel(pow256, 11);
                assert(pow256(10) == 0x100_0000_0000_0000_0000_00);
                assert(pow256(8) == 0x1_0000_0000_0000_0000);
            }
            let receiver_d = be_u128_range(tx.memo.as_slice(), base + 8, base + 18);
            let receiver_p = fr_reduce_be_at(tx.memo.as_slice(), base + 18);
            let amount = be_u64_at(tx.memo.as_slice(), base + 50);
            let p_d = derive_note_p_d(receiver_d, eta);
            proof {
                assert(dd_entry_at(tx.memo@, i as int) == DdEntry {
                    receiver_d,
                    receiver_p,
                    amount,
                });
            }
            if p_d == receiver_p {
                in_notes.push(
                    IndexedNote {
                        index: tx.index + 1 + (i as u64),
                        note: PlainNote { d: receiver_d, p_d: receiver_p, b: amount, t: 0 },
                    },
                );
            }
            proof {
                assert(in_notes@ =~= dd_in_notes(tx.memo@, *eta, tx.index, i as int + 1));
            }
            i = i + 1;
        }

        if in_notes.len() > 0 {
            let leaf_row = dd_leaf_row(&tx.memo, n);
            let mut note_pairs: Vec<(u64, PlainNote)> = Vec::new();
            let mut j: usize = 0;
            while j < in_notes.len()
                invariant
                    j <= in_notes@.len(),
                    note_pairs@ =~= pairs_of(in_notes@).take(j as int),
                decreases in_notes@.len() - j,
            {
                note_pairs.push((in_notes[j].index, in_notes[j].note));
                proof {
                    assert(note_pairs@ =~= pairs_of(in_notes@).take(j as int + 1));
                }
                j = j + 1;
            }
            let mut memos: Vec<DecMemo> = Vec::new();
            memos.push(
                DecMemo {
                    index: tx.index,
                    acc: None,
                    in_notes,
                    out_notes: Vec::new(),
                    tx_hash: Some(tx.tx_hash.clone()),
                },
            );
            let mut new_leafs: Vec<(u64, Vec<Fr256>)> = Vec::new();
            new_leafs.push((tx.index, leaf_row));
            let mut new_notes: Vec<Vec<(u64, PlainNote)>> = Vec::new();
            new_notes.push(note_pairs);
            let pr = ParseResult {
                decrypted_memos: memos,
                state_update: StateUpdate {
                    new_leafs,
                    new_commitments: Vec::new(),
                    new_accounts: Vec::new(),
                    new_notes,
                },
            };
            proof {
                assert(pairs_of(pr.decrypted_memos@[0].in_notes@) =~= pairs_of(
                    pr.decrypted_memos@[0].in_notes@,
                ).take(pr.decrypted_memos@[0].in_notes@.len() as int));
                assert(pr@ =~~= parse_tx_model(tx@, *eta, *kappa));
            }
            return Ok(pr);
        } else {
            let mut new_commitments: Vec<(u64, Fr256)> = Vec::new();
            new_commitments.push((tx.index, tx.commitment));
            let pr = ParseResult {
                decrypted_memos: Vec::new(),
                state_update: StateUpdate {
                    new_leafs: Vec::new(),
                    new_commitments,
                    new_accounts: Vec::new(),
                    new_notes: Vec::new(),
                },
            };
            proof {
                assert(pr@ =~~= parse_tx_model(tx@, *eta, *kappa));
            }
            return Ok(pr);
        }
    }

    // Regular record: `count` leaf hashes follow the prefix.
    if count > 128 {
        return Err(ParseError::IncorrectPrefix(tx.index, count, 128));
    }

    let avail = memo_len - 4;
    let nl_whole = (avail + 31) / 32;
    let nl = if (count as usize) <= nl_whole {
        count as usize
    } else {
        nl_whole
    };
    proof {
        assert(nl as int == n_leaves(tx.memo@, count));
    }
    let mut leaves: Vec<Fr256> = Vec::new();
    let mut i: usize = 0;
    while i < nl
        invariant
            tx.memo@.len() == memo_len,
            memo_len >= 4,
            memo_len <= 0x1000_0000,
            nl <= (memo_len - 4 + 31) / 32,
            nl <= 128,
            i <= nl,
            leaves@ =~= leaves_of(tx.memo@, count).take(i as int),
            nl as int == n_leaves(tx.memo@, count),
        decreases nl - i,
    {
        let start = 4 + 32 * i;
        let end = if start + 32 <= memo_len {
            start + 32
        } else {
            memo_len
        };
        proof {
            assert(32 * (nl as int - 1) <= memo_len - 4 - 1) by (nonlinear_arith)
                requires
                    nl as int <= (memo_len - 4 + 31) / 32,
                    memo_len >= 4,
                    nl as int >= 1,
            ;
        }
        let mut chunk: Vec<u8> = Vec::new();
        let mut m: usize = start;
        while m < end
            invariant
                start <= m <= end <= memo_len,
                tx.memo@.len() == memo_len,
                chunk@ =~= tx.memo@.subrange(start as int, m as int),
            decreases end - m,
        {
            chunk.push(tx.memo[m]);
            proof {
                assert(chunk@ =~= tx.memo@.subrange(start as int, m as int + 1));
            }
            m = m + 1;
        }
        proof {
            assert(chunk@.subrange(0, (end - start) as int) =~= chunk@);
        }
        while chunk.len() < 32
            invariant
                end <= start + 32,
                start <= end,
                chunk@.len() >= end - start,
                chunk@.len() <= 32,
                chunk@.subrange(0, (end - start) as int) =~= tx.memo@.subrange(
                    start as int,
                    end as int,
                ),
                forall|q: int| end - start <= q < chunk@.len() ==> chunk@[q] == 0u8,
            decreases 32 - chunk@.len(),
        {
            let ghost pre = chunk@;
            chunk.push(0u8);
            proof {
                assert(chunk@.subrange(0, (end - start) as int) =~= pre.subrange(
                    0,
                    (end - start) as int,
                ));
            }
        }
        proof {
            assert(chunk@ =~= padded32(leaf_chunk(tx.memo@, i as int)));
        }
        let leaf = fr_from_le_bytes(chunk.as_slice());
        leaves.push(leaf);
        proof {
            assert(leaves@ =~= leaves_of(tx.memo@, count).take(i as int + 1));
        }
        i = i + 1;
    }
    proof {
        assert(leaves@ =~= leaves_of(tx.memo@, count));
    }

    match try_decrypt_out(eta, kappa, &tx.memo) {
        Some((acc, notes)) => {
            let mut out_notes: Vec<IndexedNote> = Vec::new();
            let mut in_notes: Vec<IndexedNote> = Vec::new();
            let mut i: usize = 0;
            while i < notes.len()
                invariant
                    tx.index <= MAX_TREE_INDEX,
                    notes@.len() <= 0x1000_0000,
                    i <= notes@.len(),
                    out_notes@ =~= out_notes_of(notes@, tx.index).take(i as int),
                    in_notes@ == sender_in_notes(notes@, *eta, tx.index, i as int),
                decreases notes@.len() - i,
            {
                let note = notes[i];
                out_notes.push(IndexedNote { index: tx.index + 1 + (i as u64), note });
                let p_d = derive_note_p_d(note.d, eta);
                if note.p_d == p_d {
                    in_notes.push(IndexedNote { index: tx.index + 1 + (i as u64), note });
                }
                proof {
                    assert(out_notes@ =~= out_notes_of(notes@, tx.index).take(i as int + 1));
                    assert(in_notes@ =~= sender_in_notes(notes@, *eta, tx.index, i as int + 1));
                }
                i = i + 1;
            }
            let mut note_pairs: Vec<(u64, PlainNote)> = Vec::new();
            let mut j: usize = 0;
            while j < in_notes.len()
                invariant
                    j <= in_notes@.len(),
                    note_pairs@ =~= pairs_of(in_notes@).take(j as int),
                decreases in_notes@.len() - j,
            {
                note_pairs.push((in_notes[j].index, in_notes[j].note));
                proof {
                    assert(note_pairs@ =~= pairs_of(in_notes@).take(j as int + 1));
                }
                j = j + 1;
            }
            let mut memos: Vec<DecMemo> = Vec::new();
            memos.push(
                DecMemo {
                    index: tx.index,
                    acc: Some(acc),
                    in_notes,
                    out_notes,
                    tx_hash: Some(tx.tx_hash.clone()),
                },
            );
            let mut new_leafs: Vec<(u64, Vec<Fr256>)> = Vec::new();
            new_leafs.push((tx.index, leaves));
            let mut new_accounts: Vec<(u64, ShieldedAccount)> = Vec::new();
            new_accounts.push((tx.index, acc));
            let mut new_notes: Vec<Vec<(u64, PlainNote)>> = Vec::new();
            new_notes.push(note_pairs);
            let pr = ParseResult {
                decrypted_memos: memos,
                state_update: StateUpdate {
                    new_leafs,
                    new_commitments: Vec::new(),
                    new_accounts,
                    new_notes,
                },
            };
            proof {
                assert(pr@ =~~= parse_tx_model(tx@, *eta, *kappa));
            }
            Ok(pr)
        },
        None => {
            let dec = try_decrypt_in(eta, &tx.memo);
            let mut in_notes: Vec<IndexedNote> = Vec::new();
            let mut i: usize = 0;
            while i < dec.len()
                invariant
                    tx.index <= MAX_TREE_INDEX,
                    dec@.len() <= 0x1000_0000,
                    i <= dec@.len(),
                    in_notes@ == receiver_in_notes(dec@, *eta, tx.index, i as int),
                decreases dec@.len() - i,
            {
                match dec[i] {
                    Some(note) => {
                        let p_d = derive_note_p_d(note.d, eta);
                        if note.p_d == p_d {
                            in_notes.push(IndexedNote { index: tx.index + 1 + (i as u64), note });
                        }
                    },
                    None => {},
                }
                proof {
                    assert(in_notes@ =~= receiver_in_notes(dec@, *eta, tx.index, i as int + 1));
                }
                i = i + 1;
            }
            if in_notes.len() > 0 {
                let mut note_pairs: Vec<(u64, PlainNote)> = Vec::new();
                let mut j: usize = 0;
                while j < in_notes.len()
                    invariant
                        j <= in_notes@.len(),
                        note_pairs@ =~= pairs_of(in_notes@).take(j as int),
                    decreases in_notes@.len() - j,
                {
                    note_pairs.push((in_notes[j].index, in_notes[j].note));
                    proof {
                        assert(note_pairs@ =~= pairs_of(in_notes@).take(j as int + 1));
                    }
                    j = j + 1;
                }
                let mut memos: Vec<DecMemo> = Vec::new();
                memos.push(
                    DecMemo {
                        index: tx.index,
                        acc: None,
                        in_notes,
                        out_notes: Vec::new(),
                        tx_hash: Some(tx.tx_hash.clone()),
                    },
                );
                let mut new_leafs: Vec<(u64, Vec<Fr256>)> = Vec::new();
                new_leafs.push((tx.index, leaves));
                let mut new_notes: Vec<Vec<(u64, PlainNote)>> = Vec::new();
                new_notes.push(note_pairs);
                let pr = ParseResult {
                    decrypted_memos: memos,
                    state_update: StateUpdate {
                        new_leafs,
                        new_commitments: Vec::new(),
                        new_accounts: Vec::new(),
                        new_notes,
                    },
                };
                proof {
                    assert(pr@ =~~= parse_tx_model(tx@, *eta, *kappa));
                }
                Ok(pr)
            } else {
                let mut new_commitments: Vec<(u64, Fr256)> = Vec::new();
                new_commitments.push((tx.index, tx.commitment));
                let pr = ParseResult {
                    decrypted_memos: Vec::new(),
                    state_update: StateUpdate {
                        new_leafs: Vec::new(),
                        new_commitments,
                        new_accounts: Vec::new(),
                        new_notes: Vec::new(),
                    },
                };
                proof {
                    assert(pr@ =~~= parse_tx_model(tx@, *eta, *kappa));
                }
                Ok(pr)
            }
        },
    }
}

/// The concatenation of two batch outcomes, field by field.
pub open spec fn combine_models(a: ParseResultModel, b: ParseResultModel) -> ParseResultModel {
    ParseResultModel {
        decrypted_memos: a.decrypted_memos + b.decrypted_memos,
        state_update: StateUpdateModel {
            new_leafs: a.state_update.new_leafs + b.state_update.new_leafs,
            new_commitments: a.state_update.new_commitments + b.state_update.new_commitments,
            new_accounts: a.state_update.new_accounts + b.state_update.new_accounts,
            new_notes: a.state_update.new_notes + b.state_update.new_notes,
        },
    }
}

pub open spec fn empty_model() -> ParseResultModel {
    ParseResultModel { decrypted_memos: Seq::empty(), state_update: empty_state_model() }
}

/// What parsing a whole batch yields: each record's outcome, concatenated
/// in order.
pub open spec fn parse_txs_model(txs: Seq<Transaction>, eta: Fr256, kappa: Fr256) -> ParseResultModel
    decreases txs.len(),
{
    if txs.len() == 0 {
        empty_model()
    } else {
        combine_models(
            parse_txs_model(txs.drop_last(), eta, kappa),
            parse_tx_model(txs.last()@, eta, kappa),
        )
    }
}

/// Parses a batch of pool records, all or nothing: a single bad record
/// rejects the whole batch with `StateSyncError`, and the caller retries
/// it.
pub fn parse_txs(txs: &Vec<Transaction>, eta: &Fr256, kappa: &Fr256) -> (r: Result<
    ParseResult,
    CloudError,
>)
    requires
        forall|i: int|
            0 <= i < txs@.len() ==> (#[trigger] txs@[i]).index <= MAX_TREE_INDEX
                && txs@[i].memo@.len() <= 0x1000_0000,
    ensures
        r is Ok <==> forall|i: int|
            0 <= i < txs@.len() ==> parse_tx_err(
                (#[trigger] txs@[i]).index,
                txs@[i].memo@,
            ) is None,
        r matches Ok(pr) ==> pr@ == parse_txs_model(txs@, *eta, *kappa),
        r matches Err(e) ==> e == CloudError::StateSyncError,
{
    let mut acc = ParseResult {
        decrypted_memos: Vec::new(),
        state_update: StateUpdate {
            new_leafs: Vec::new(),
            new_commitments: Vec::new(),
            new_accounts: Vec::new(),
            new_notes: Vec::new(),
        },
    };
    proof {
        assert(acc@ =~~= parse_txs_model(txs@.take(0), *eta, *kappa));
    }
    let n = txs.len();
    let mut i: usize = 0;
    while i < n
        invariant
            n == txs@.len(),
            i <= n,
            forall|q: int|
                0 <= q < txs@.len() ==> (#[trigger] txs@[q]).index <= MAX_TREE_INDEX
                    && txs@[q].memo@.len() <= 0x1000_0000,
            forall|q: int|
                0 <= q < i ==> parse_tx_err((#[trigger] txs@[q]).index, txs@[q].memo@) is None,
            acc@ == parse_txs_model(txs@.take(i as int), *eta, *kappa),
        decreases n - i,
    {
        match parse_tx(&txs[i], eta, kappa) {
            Ok(mut pr) => {
                let ghost pre = acc@;
                acc.decrypted_memos.append(&mut pr.decrypted_memos);
                acc.state_update.new_leafs.append(&mut pr.state_update.new_leafs);
                acc.state_update.new_commitments.append(&mut pr.state_update.new_commitments);
                acc.state_update.new_accounts.append(&mut pr.state_update.new_accounts);
                acc.state_update.new_notes.append(&mut pr.state_update.new_notes);
                proof {
                    assert(txs@.take(i as int + 1).drop_last() =~= txs@.take(i as int));
                    assert(txs@.take(i as int + 1).last() == txs@[i as int]);
                    assert(acc@ =~~= combine_models(pre, parse_tx_model(txs@[i as int]@, *eta, *kappa)));
                }
            },
            Err(_) => {
                return Err(CloudError::StateSyncError);
            },
        }
        i = i + 1;
    }
    proof {
        assert(txs@.take(n as int) =~= txs@);
    }
    Ok(acc)
}

} // verus!
