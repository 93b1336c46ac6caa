//! Per-account persistence: the secret key and description, and the
//! account's decrypted memos, keyed by pool index so they read back in
//! order.

use vstd::prelude::*;

use crate::account::tx_parser::{DecMemo, IndexedNote, PlainNote, ShieldedAccount};
use crate::errors::CloudError;
use crate::helpers::codec::{
    enc_opt_str, enc_str, enc_u128, enc_u64, get_opt_str, get_str, get_u128, get_u64, get_u8,
    put_opt_str, put_str, put_u128, put_u64, put_u8, rd_str, rd_u128, rd_u64, rd_u8,
};
use crate::helpers::db::KeyValueDb;
use crate::relayer::db::be64_key;
use crate::Fr256;

verus! {

broadcast use crate::helpers::codec::lemma_le64_bytes_len, crate::helpers::codec::lemma_le128_bytes_len;

/// The single column of the account's own store.
#[derive(Clone, Copy, Debug, PartialEq, Eq, Structural)]
pub enum AccountDbColumn {
    General,
}

impl AccountDbColumn {
    pub fn count() -> (r: u32)
        ensures
            r == 1,
    {
        1
    }
}

/// The single column of the account's memo store.
#[derive(Clone, Copy, Debug, PartialEq, Eq, Structural)]
pub enum HistoryDbColumn {
    Memo,
}

impl HistoryDbColumn {
    pub fn count() -> (r: u32)
        ensures
            r == 1,
    {
        1
    }
}

// --- The wire form of a decrypted memo -----------------------------------

pub open spec fn enc_note(n: PlainNote) -> Seq<u8> {
    enc_u128(n.d) + enc_u128(n.p_d.hi) + enc_u128(n.p_d.lo) + enc_u64(n.b) + enc_u128(n.t)
}

pub open spec fn enc_inote(n: IndexedNote) -> Seq<u8> {
    enc_u64(n.index) + enc_note(n.note)
}

pub open spec fn enc_notes_body(s: Seq<IndexedNote>) -> Seq<u8>
    decreases s.len(),
{
    if s.len() == 0 {
        Seq::empty()
    } else {
        enc_inote(s.first()) + enc_notes_body(s.drop_first())
    }
}

pub open spec fn enc_notes(s: Seq<IndexedNote>) -> Seq<u8> {
    enc_u64(s.len() as u64) + enc_notes_body(s)
}

pub open spec fn enc_acc(a: ShieldedAccount) -> Seq<u8> {
    enc_u128(a.d) + enc_u128(a.p_d.hi) + enc_u128(a.p_d.lo) + enc_u64(a.i) + enc_u64(a.b)
        + enc_u128(a.e)
}

pub open spec fn enc_opt_acc(a: Option<ShieldedAccount>) -> Seq<u8> {
    match a {
        None => seq![0u8],
        Some(a) => seq![1u8] + enc_acc(a),
    }
}

/// The wire form of one memo row.
pub open spec fn enc_memo(m: DecMemo) -> Seq<u8> {
    enc_u64(m.index) + enc_opt_acc(m.acc) + enc_notes(m.in_notes@) + enc_notes(m.out_notes@)
        + enc_opt_str(crate::cloud::db::view_opt(m.tx_hash))
}

// --- Readers --------------------------------------------------------------

pub open spec fn rd_note(buf: Seq<u8>, pos: int) -> Option<(PlainNote, int)> {
    match rd_u128(buf, pos) {
        Some((d, p1)) => match rd_u128(buf, p1) {
            Some((hi, p2)) => match rd_u128(buf, p2) {
                Some((lo, p3)) => match rd_u64(buf, p3) {
                    Some((b, p4)) => match rd_u128(buf, p4) {
                        Some((t, p5)) => Some(
                            (PlainNote { d, p_d: Fr256 { hi, lo }, b, t }, p5),
                        ),
                        None => None,
                    },
                    None => None,
                },
                None => None,
            },
            None => None,
        },
        None => None,
    }
}

pub open spec fn rd_inote(buf: Seq<u8>, pos: int) -> Option<(IndexedNote, int)> {
    match rd_u64(buf, pos) {
        Some((index, p1)) => match rd_note(buf, p1) {
            Some((note, p2)) => Some((IndexedNote { index, note }, p2)),
            None => None,
        },
        None => None,
    }
}

pub open spec fn rd_notes_body(buf: Seq<u8>, pos: int, k: int) -> Option<(Seq<IndexedNote>, int)>
    decreases k,
{
    if k <= 0 {
        Some((Seq::empty(), pos))
    } else {
        match rd_inote(buf, pos) {
            Some((x, p1)) => match rd_notes_body(buf, p1, k - 1) {
                Some((rest, end)) => Some((seq![x] + rest, end)),
                None => None,
            },
            None => None,
        }
    }
}

pub open spec fn rd_notes(buf: Seq<u8>, pos: int) -> Option<(Seq<IndexedNote>, int)> {
    match rd_u64(buf, pos) {
        Some((n, p1)) => if n <= 0x1000_0000 {
            rd_notes_body(buf, p1, n as int)
        } else {
            None
        },
        None => None,
    }
}

pub open spec fn rd_acc(buf: Seq<u8>, pos: int) -> Option<(ShieldedAccount, int)> {
    match rd_u128(buf, pos) {
        Some((d, p1)) => match rd_u128(buf, p1) {
            Some((hi, p2)) => match rd_u128(buf, p2) {
                Some((lo, p3)) => match rd_u64(buf, p3) {
                    Some((i, p4)) => match rd_u64(buf, p4) {
                        Some((b, p5)) => match rd_u128(buf, p5) {
                            Some((e, p6)) => Some(
                                (ShieldedAccount { d, p_d: Fr256 { hi, lo }, i, b, e }, p6),
                            ),
                            None => None,
                        },
                        None => None,
                    },
                    None => None,
                },
                None => None,
            },
            None => None,
        },
        None => None,
    }
}

pub open spec fn rd_opt_acc(buf: Seq<u8>, pos: int) -> Option<(Option<ShieldedAccount>, int)> {
    match rd_u8(buf, pos) {
        Some((0u8, p1)) => Some((None, p1)),
        Some((1u8, p1)) => match rd_acc(buf, p1) {
            Some((a, p2)) => Some((Some(a), p2)),
            None => None,
        },
        _ => None,
    }
}

/// Everything one memo row holds, read back at spec level: index, account
/// state, both note lists, and the hash text.
pub open spec fn rd_memo(buf: Seq<u8>) -> Option<
    (u64, Option<ShieldedAccount>, Seq<IndexedNote>, Seq<IndexedNote>, Option<Seq<char>>),
> {
    match rd_u64(buf, 0) {
        Some((index, p1)) => match rd_opt_acc(buf, p1) {
            Some((acc, p2)) => match rd_notes(buf, p2) {
                Some((ins, p3)) => match rd_notes(buf, p3) {
                    Some((outs, p4)) => match rd_u8(buf, p4) {
                        Some((0u8, _)) => Some((index, acc, ins, outs, None)),
                        Some((1u8, p5)) => match rd_str(buf, p5) {
                            Some((h, _)) => Some((index, acc, ins, outs, Some(h))),
                            None => None,
                        },
                        _ => None,
                    },
                    None => None,
                },
                None => None,
            },
            None => None,
        },
        None => None,
    }
}

// --- Executable codec -----------------------------------------------------

fn put_note(out: &mut Vec<u8>, n: &PlainNote)
    ensures
        final(out)@ == old(out)@ + enc_note(*n),
{
    let ghost pre = out@;
    put_u128(out, n.d);
    put_u128(out, n.p_d.hi);
    put_u128(out, n.p_d.lo);
    put_u64(out, n.b);
    put_u128(out, n.t);
    proof {
        assert(final(out)@ =~= pre + enc_note(*n));
    }
}

pub fn encode_memo(m: &DecMemo) -> (r: Vec<u8>)
    requires
        m.in_notes@.len() <= 0x1000_0000,
        m.out_notes@.len() <= 0x1000_0000,
    ensures
        r@ == enc_memo(*m),
{
    let mut out: Vec<u8> = Vec::new();
    put_u64(&mut out, m.index);
    match &m.acc {
        None => put_u8(&mut out, 0),
        Some(a) => {
            let ghost pre = out@;
            put_u8(&mut out, 1);
            put_u128(&mut out, a.d);
            put_u128(&mut out, a.p_d.hi);
            put_u128(&mut out, a.p_d.lo);
            put_u64(&mut out, a.i);
            put_u64(&mut out, a.b);
            put_u128(&mut out, a.e);
            proof {
                assert(out@ =~= pre + enc_opt_acc(m.acc));
            }
        },
    }
    put_notes(&mut out, &m.in_notes);
    put_notes(&mut out, &m.out_notes);
    put_opt_str(&mut out, &m.tx_hash);
    proof {
        assert(out@ =~= enc_memo(*m));
    }
    out
}

fn put_notes(out: &mut Vec<u8>, notes: &Vec<IndexedNote>)
    requires
        notes@.len() <= 0x1000_0000,
    ensures
        final(out)@ == old(out)@ + enc_notes(notes@),
{
    let ghost pre = out@;
    put_u64(out, notes.len() as u64);
    let n = notes.len();
    let mut i: usize = 0;
    while i < n
        invariant
            n == notes@.len(),
            i <= n,
            out@ == pre + enc_u64(notes@.len() as u64) + enc_notes_body(notes@.take(i as int)),
        decreases n - i,
    {
        put_u64(out, notes[i].index);
        put_note(out, &notes[i].note);
        proof {
            lemma_notes_body_snoc(notes@, i as int);
            assert(out@ =~= pre + enc_u64(notes@.len() as u64) + enc_notes_body(
                notes@.take(i as int + 1),
            ));
        }
        i = i + 1;
    }
    proof {
        assert(notes@.take(n as int) =~= notes@);
        assert(final(out)@ =~= pre + enc_notes(notes@));
    }
}

/// Appending one note extends the body encoding at its end.
proof fn lemma_notes_body_snoc(s: Seq<IndexedNote>, i: int)
    requires
        0 <= i < s.len(),
    ensures
        enc_notes_body(s.take(i + 1)) == enc_notes_body(s.take(i)) + enc_inote(s[i]),
    decreases i,
{
    if i == 0 {
        assert(s.take(1).drop_first() =~= s.take(0));
        assert(enc_notes_body(s.take(1)) =~= enc_inote(s[0]) + enc_notes_body(s.take(0)));
        assert(enc_notes_body(s.take(0)) =~= Seq::<u8>::empty());
        assert(enc_notes_body(s.take(1)) =~= enc_notes_body(s.take(0)) + enc_inote(s[0]));
    } else {
        assert(s.take(i + 1).drop_first() =~= s.subrange(1, i + 1));
        assert(s.take(i).drop_first() =~= s.subrange(1, i));
        lemma_notes_body_snoc(s.subrange(1, s.len() as int), i - 1);
        assert(s.subrange(1, s.len() as int).take(i) =~= s.subrange(1, i + 1));
        assert(s.subrange(1, s.len() as int).take(i - 1) =~= s.subrange(1, i));
        assert(s.subrange(1, s.len() as int)[i - 1] == s[i]);
        assert(enc_notes_body(s.take(i + 1)) =~= enc_inote(s.first()) + enc_notes_body(
            s.subrange(1, i + 1),
        ));
        assert(enc_notes_body(s.take(i)) =~= enc_inote(s.first()) + enc_notes_body(
            s.subrange(1, i),
        ));
        assert(enc_notes_body(s.take(i + 1)) =~= enc_notes_body(s.take(i)) + enc_inote(s[i]));
    }
}

fn get_note(buf: &Vec<u8>, pos: usize) -> (r: Option<(PlainNote, usize)>)
    ensures
        (match r {
            Some((v, p)) => rd_note(buf@, pos as int) == Some((v, p as int)),
            None => rd_note(buf@, pos as int) is None,
        }),
{
    let (d, p1) = match get_u128(buf, pos) {
        Some(x) => x,
        None => {
            return None;
        },
    };
    let (hi, p2) = match get_u128(buf, p1) {
        Some(x) => x,
        None => {
            return None;
        },
    };
    let (lo, p3) = match get_u128(buf, p2) {
        Some(x) => x,
        None => {
            return None;
        },
    };
    let (b, p4) = match get_u64(buf, p3) {
        Some(x) => x,
        None => {
            return None;
        },
    };
    let (t, p5) = match get_u128(buf, p4) {
        Some(x) => x,
        None => {
            return None;
        },
    };
    Some((PlainNote { d, p_d: Fr256 { hi, lo }, b, t }, p5))
}

#[verifier::loop_isolation(false)]
#[verifier::rlimit(100)]
fn get_notes(buf: &Vec<u8>, pos: usize) -> (r: Option<(Vec<IndexedNote>, usize)>)
    ensures
        (match r {
            Some((v, p)) => rd_notes(buf@, pos as int) == Some((v@, p as int)),
            None => rd_notes(buf@, pos as int) is None,
        }),
{
    let (n64, p1) = match get_u64(buf, pos) {
        Some(x) => x,
        None => {
            return None;
        },
    };
    if n64 > 0x1000_0000 {
        return None;
    }
    let n = n64 as usize;
    let mut out: Vec<IndexedNote> = Vec::new();
    let mut cur: usize = p1;
    let mut i: usize = 0;
    while i < n
        invariant
            i <= n,
            out@.len() == i,
            rd_notes_body(buf@, p1 as int, n as int) == (match rd_notes_body(
                buf@,
                cur as int,
                n as int - i,
            ) {
                Some((rest, end)) => Some((out@ + rest, end)),
                None => None::<(Seq<IndexedNote>, int)>,
            }),
        decreases n - i,
    {
        let (index, q1) = match get_u64(buf, cur) {
            Some(x) => x,
            None => {
                return None;
            },
        };
        let (note, q2) = match get_note(buf, q1) {
            Some(x) => x,
            None => {
                return None;
            },
        };
        let ghost pre = out@;
        out.push(IndexedNote { index, note });
        proof {
            assert(rd_inote(buf@, cur as int) == Some(
                (IndexedNote { index, note }, q2 as int),
            ));
            assert forall|rest2: Seq<IndexedNote>, end2: int|
                rd_notes_body(buf@, q2 as int, n as int - i - 1) == Some(
                    (rest2, end2),
                ) implies out@ + rest2 =~= pre + (seq![IndexedNote { index, note }] + rest2) by {}
        }
        cur = q2;
        i = i + 1;
    }
    proof {
        assert(rd_notes_body(buf@, cur as int, 0) == Some((Seq::<IndexedNote>::empty(), cur as int)));
        assert(out@ + Seq::<IndexedNote>::empty() =~= out@);
    }
    Some((out, cur))
}

/// Reads a memo row back: exactly what the spec reader yields, as a value.
pub fn decode_memo(buf: &Vec<u8>) -> (r: Option<DecMemo>)
    ensures
        (match r {
            Some(v) => rd_memo(buf@) matches Some(m) && v.index == m.0 && v.acc == m.1
                && v.in_notes@ == m.2 && v.out_notes@ == m.3 && crate::cloud::db::view_opt(
                v.tx_hash,
            ) == m.4,
            None => rd_memo(buf@) is None,
        }),
{
    let (index, p1) = match get_u64(buf, 0) {
        Some(x) => x,
        None => {
            return None;
        },
    };
    let (tag, p2) = match get_u8(buf, p1) {
        Some(x) => x,
        None => {
            return None;
        },
    };
    let (acc, p3): (Option<ShieldedAccount>, usize) = if tag == 0 {
        (None, p2)
    } else if tag == 1 {
        let (d, q1) = match get_u128(buf, p2) {
            Some(x) => x,
            None => {
                return None;
            },
        };
        let (hi, q2) = match get_u128(buf, q1) {
            Some(x) => x,
            None => {
                return None;
            },
        };
        let (lo, q3) = match get_u128(buf, q2) {
            Some(x) => x,
            None => {
                return None;
            },
        };
        let (ai, q4) = match get_u64(buf, q3) {
            Some(x) => x,
            None => {
                return None;
            },
        };
        let (ab, q5) = match get_u64(buf, q4) {
            Some(x) => x,
            None => {
                return None;
            },
        };
        let (ae, q6) = match get_u128(buf, q5) {
            Some(x) => x,
            None => {
                return None;
            },
        };
        (Some(ShieldedAccount { d, p_d: Fr256 { hi, lo }, i: ai, b: ab, e: ae }), q6)
    } else {
        return None;
    };
    let (in_notes, p4) = match get_notes(buf, p3) {
        Some(x) => x,
        None => {
            return None;
        },
    };
    let (out_notes, p5) = match get_notes(buf, p4) {
        Some(x) => x,
        None => {
            return None;
        },
    };
    let (tx_hash, _p6) = match get_opt_str(buf, p5) {
        Some(x) => x,
        None => {
            return None;
        },
    };
    Some(DecMemo { index, acc, in_notes, out_notes, tx_hash })
}

/// An account's own durable state: key material, description, and the
/// decrypted memo history.
pub struct Db {
    pub db_path: String,
    db: KeyValueDb,
    history: KeyValueDb,
}

impl Db {
    pub closed spec fn wf(&self) -> bool {
        &&& self.db.wf() && self.db.columns_spec() == 1
        &&& self.history.wf() && self.history.columns_spec() == 1
    }

    pub closed spec fn rows(&self) -> Map<(u32, Seq<u8>), Seq<u8>> {
        self.db.contents()
    }

    pub closed spec fn memo_rows(&self) -> Map<(u32, Seq<u8>), Seq<u8>> {
        self.history.contents()
    }

    pub fn new(db_path: String) -> (r: Db)
        ensures
            r.wf(),
    {
        Db {
            db_path,
            db: KeyValueDb::new(AccountDbColumn::count()),
            history: KeyValueDb::new(HistoryDbColumn::count()),
        }
    }

    /// Persists the account's secret key bytes.
    pub fn save_sk(&mut self, sk: &Vec<u8>) -> (r: Result<(), CloudError>)
        requires
            old(self).wf(),
        ensures
            final(self).wf(),
            r is Ok,
            final(self).rows() == old(self).rows().insert((0u32, "sk"@.map(|i: int, c: char| c as u8)), sk@),
    {
        let key = sk_key_vec();
        let res = self.db.save_raw(0, &key, sk);
        proof {
            assert(res is Ok);
        }
        Ok(())
    }

    /// Loads the account's secret key bytes.
    pub fn get_sk(&self) -> (r: Result<Option<Vec<u8>>, CloudError>)
        requires
            self.wf(),
        ensures
            (match r {
                Ok(Some(v)) => self.rows().contains_key(
                    (0u32, "sk"@.map(|i: int, c: char| c as u8)),
                ) && v@ == self.rows()[(0u32, "sk"@.map(|i: int, c: char| c as u8))],
                Ok(None) => !self.rows().contains_key(
                    (0u32, "sk"@.map(|i: int, c: char| c as u8)),
                ),
                Err(_) => false,
            }),
    {
        let key = sk_key_vec();
        self.db.get_raw(0, &key)
    }

    /// Persists every decrypted memo of a batch, keyed by its pool index,
    /// in one atomic write.
    pub fn save_memos(&mut self, memos: &Vec<DecMemo>) -> (r: Result<(), CloudError>)
        requires
            old(self).wf(),
            forall|i: int|
                0 <= i < memos@.len() ==> (#[trigger] memos@[i]).in_notes@.len() <= 0x1000_0000
                    && memos@[i].out_notes@.len() <= 0x1000_0000,
        ensures
            final(self).wf(),
            r is Ok,
            ({
                let batch = Seq::new(
                    memos@.len(),
                    |i: int| ((0u32, be64_key(memos@[i].index)), enc_memo(memos@[i])),
                );
                final(self).memo_rows() == crate::cloud::db::seq_batch_insert(
                    old(self).memo_rows(),
                    batch,
                )
            }),
    {
        let mut kvs: Vec<(Vec<u8>, Vec<u8>)> = Vec::new();
        let n = memos.len();
        let mut i: usize = 0;
        while i < n
            invariant
                n == memos@.len(),
                i <= n,
                kvs@.len() == i,
                forall|i2: int|
                    0 <= i2 < memos@.len() ==> (#[trigger] memos@[i2]).in_notes@.len()
                        <= 0x1000_0000 && memos@[i2].out_notes@.len() <= 0x1000_0000,
                forall|q: int|
                    0 <= q < i ==> (#[trigger] kvs@[q]).0@ == be64_key(memos@[q].index)
                        && kvs@[q].1@ == enc_memo(memos@[q]),
            decreases n - i,
        {
            let m = &memos[i];
            kvs.push((crate::relayer::db::be64_key_vec(m.index), encode_memo(m)));
            i = i + 1;
        }
        let res = self.history.save_all_raw(0, &kvs);
        proof {
            assert(res is Ok);
            let batch = Seq::new(
                memos@.len(),
                |i: int| ((0u32, be64_key(memos@[i].index)), enc_memo(memos@[i])),
            );
            crate::cloud::db::lemma_batch_views(old(self).memo_rows(), 0u32, kvs@, batch);
        }
        Ok(())
    }

    /// Every stored memo, exactly one per stored row, in strictly
    /// increasing pool-index order; a row that does not read back as a
    /// memo, or rows out of order, are a database error. When every row
    /// reads back and the key walk agrees with the memo indices — which
    /// holds for everything [`Db::save_memos`] writes — the read
    /// succeeds.
    #[verifier::loop_isolation(false)]
    #[verifier::rlimit(100)]
    #[verifier::spinoff_prover]
    pub fn get_memos(&self) -> (r: Result<Vec<DecMemo>, CloudError>)
        requires
            self.wf(),
        ensures
            r matches Ok(v) ==> forall|i: int|
                0 <= i < v@.len() ==> exists|k: Seq<u8>|
                    self.memo_rows().contains_key((0u32, k)) && (match #[trigger] rd_memo(
                        self.memo_rows()[(0u32, k)],
                    ) {
                        Some(m) => (#[trigger] v@[i]).index == m.0 && v@[i].acc == m.1
                            && v@[i].in_notes@ == m.2 && v@[i].out_notes@ == m.3
                            && crate::cloud::db::view_opt(v@[i].tx_hash) == m.4,
                        None => false,
                    }),
            r matches Ok(v) ==> forall|k: Seq<u8>|
                self.memo_rows().contains_key((0u32, k)) ==> (match #[trigger] rd_memo(
                    self.memo_rows()[(0u32, k)],
                ) {
                    Some(m) => exists|i: int|
                        0 <= i < v@.len() && (#[trigger] v@[i]).index == m.0 && v@[i].acc == m.1
                            && v@[i].in_notes@ == m.2 && v@[i].out_notes@ == m.3
                            && crate::cloud::db::view_opt(v@[i].tx_hash) == m.4,
                    None => false,
                }),
            r matches Ok(v) ==> forall|i: int, j: int|
                0 <= i < j < v@.len() ==> (#[trigger] v@[i]).index < (#[trigger] v@[j]).index,
            ((forall|k: Seq<u8>|
                self.memo_rows().contains_key((0u32, k)) ==> #[trigger] rd_memo(
                    self.memo_rows()[(0u32, k)],
                ) is Some) && (forall|k1: Seq<u8>, k2: Seq<u8>|
                (self.memo_rows().contains_key((0u32, k1)) && self.memo_rows().contains_key(
                    (0u32, k2),
                ) && #[trigger] crate::helpers::db::bytes_lt(k1, k2)) ==> rd_memo(
                    self.memo_rows()[(0u32, k1)],
                ).unwrap().0 < rd_memo(self.memo_rows()[(0u32, k2)]).unwrap().0)) ==> r is Ok,
    {
        let rows = match self.history.get_all_raw(0) {
            Ok(rows) => rows,
            Err(e) => {
                proof {
                    // the memo column always exists, so the walk cannot fail
                    assert(false);
                }
                return Err(e);
            },
        };
        let mut out: Vec<DecMemo> = Vec::new();
        let n = rows.len();
        let mut i: usize = 0;
        while i < n
            invariant
                n == rows@.len(),
                i <= n,
                out@.len() == i,
                forall|q: int|
                    0 <= q < i ==> (match rd_memo((#[trigger] rows@[q]).1@) {
                        Some(m) => (#[trigger] out@[q]).index == m.0 && out@[q].acc == m.1
                            && out@[q].in_notes@ == m.2 && out@[q].out_notes@ == m.3
                            && crate::cloud::db::view_opt(out@[q].tx_hash) == m.4,
                        None => false,
                    }),
                forall|q1: int, q2: int|
                    0 <= q1 < q2 < i ==> (#[trigger] out@[q1]).index < (#[trigger] out@[q2]).index,
            decreases n - i,
        {
            match decode_memo(&rows[i].1) {
                Some(m) => {
                    if i > 0 && out[i - 1].index >= m.index {
                        proof {
                            // under the ordered-store hypothesis of the last
                            // ensures clause this branch is unreachable
                            if forall|k1: Seq<u8>, k2: Seq<u8>|
                                (self.memo_rows().contains_key((0u32, k1))
                                    && self.memo_rows().contains_key((0u32, k2))
                                    && #[trigger] crate::helpers::db::bytes_lt(k1, k2)) ==> rd_memo(
                                    self.memo_rows()[(0u32, k1)],
                                ).unwrap().0 < rd_memo(self.memo_rows()[(0u32, k2)]).unwrap().0 {
                                assert(crate::helpers::db::bytes_lt(
                                    rows@[i as int - 1].0@,
                                    rows@[i as int].0@,
                                ));
                                assert(false);
                            }
                        }
                        return Err(
                            CloudError::DataBaseReadError(
                                String::from_str("memo rows are out of order"),
                            ),
                        );
                    }
                    out.push(m);
                    proof {
                        let k = rows@[i as int].0@;
                        assert(self.memo_rows().contains_key((0u32, k)));
                        assert(rd_memo(self.memo_rows()[(0u32, k)]) == rd_memo(
                            rows@[i as int].1@,
                        ));
                    }
                },
                None => {
                    proof {
                        let k = rows@[i as int].0@;
                        assert(self.memo_rows().contains_key((0u32, k)));
                        assert(rd_memo(self.memo_rows()[(0u32, k)]) is None);
                    }
                    return Err(
                        CloudError::DataBaseReadError(
                            String::from_str("failed to deserialize value from db"),
                        ),
                    );
                },
            }
            i = i + 1;
        }
        proof {
            assert forall|q: int|
                0 <= q < out@.len() implies exists|k: Seq<u8>|
                self.memo_rows().contains_key((0u32, k)) && (match #[trigger] rd_memo(
                    self.memo_rows()[(0u32, k)],
                ) {
                    Some(m) => (#[trigger] out@[q]).index == m.0 && out@[q].acc == m.1
                        && out@[q].in_notes@ == m.2 && out@[q].out_notes@ == m.3
                        && crate::cloud::db::view_opt(out@[q].tx_hash) == m.4,
                    None => false,
                }) by {
                let k = rows@[q].0@;
                assert(self.memo_rows().contains_key((0u32, k)));
                assert(rd_memo(self.memo_rows()[(0u32, k)]) == rd_memo(rows@[q].1@));
            }
            assert forall|k: Seq<u8>|
                self.memo_rows().contains_key((0u32, k)) implies (match #[trigger] rd_memo(
                self.memo_rows()[(0u32, k)],
            ) {
                Some(m) => exists|i2: int|
                    0 <= i2 < out@.len() && (#[trigger] out@[i2]).index == m.0 && out@[i2].acc
                        == m.1 && out@[i2].in_notes@ == m.2 && out@[i2].out_notes@ == m.3
                        && crate::cloud::db::view_opt(out@[i2].tx_hash) == m.4,
                None => false,
            }) by {
                let j = choose|j: int| 0 <= j < rows@.len() && (#[trigger] rows@[j]).0@ == k;
                assert(rd_memo(self.memo_rows()[(0u32, k)]) == rd_memo(rows@[j].1@));
                assert(out@[j].index == rd_memo(rows@[j].1@).unwrap().0);
            }
        }
        Ok(out)
    }

    /// Persists the account's description text.
    pub fn save_description(&mut self, description: &str) -> (r: Result<(), CloudError>)
        requires
            old(self).wf(),
        ensures
            final(self).wf(),
            r is Ok,
    {
        let key = description_key_vec();
        let value = description.as_bytes_vec();
        let res = self.db.save_raw(0, &key, &value);
        proof {
            assert(res is Ok);
        }
        Ok(())
    }

    /// Loads the account's description text.
    pub fn get_description(&self) -> (r: Result<Option<String>, CloudError>)
        requires
            self.wf(),
    {
        let key = description_key_vec();
        match self.db.get_raw(0, &key) {
            Ok(Some(value)) => {
                match crate::helpers::codec::string_from_utf8(value) {
                    Some(s) => Ok(Some(s)),
                    None => Err(
                        CloudError::DataBaseReadError(
                            String::from_str("failed to deserialize value from db"),
                        ),
                    ),
                }
            },
            Ok(None) => Ok(None),
            Err(e) => Err(e),
        }
    }
}

/// The key under which the description is stored.
fn description_key_vec() -> (r: Vec<u8>)
{
    let mut out: Vec<u8> = Vec::new();
    out.push(100u8);
    out.push(101u8);
    out.push(115u8);
    out.push(99u8);
    out
}

/// The key under which the secret key is stored.
fn sk_key_vec() -> (r: Vec<u8>)
    ensures
        r@ == "sk"@.map(|i: int, c: char| c as u8),
{
    let mut out: Vec<u8> = Vec::new();
    out.push(115u8);
    out.push(107u8);
    proof {
        reveal_strlit("sk");
        assert(out@ =~= "sk"@.map(|i: int, c: char| c as u8));
    }
    out
}

} // verus!
