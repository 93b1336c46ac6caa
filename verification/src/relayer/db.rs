//! The persistent cache of mined pool records, keyed by the big-endian
//! form of each record's tree index, stepped by one whole record
//! (`OUT + 1` leaves).

use vstd::prelude::*;

use crate::Fr256;
use crate::OUT_PLUS_ONE;
use crate::errors::CloudError;
use crate::helpers::codec::{
    enc_bytes, enc_str, enc_u128, enc_u64, get_bytes, get_str, get_u128, get_u64, get_u8,
    lemma_concat_parts, lemma_rd_bytes_at, lemma_rd_str_at, lemma_rd_u128_at, lemma_rd_u64_at,
    lemma_subrange_of_prefix, put_bytes, put_str, put_u128, put_u64, put_u8, rd_bytes, rd_str,
    rd_u128, rd_u64, rd_u8,
};
use crate::helpers::db::KeyValueDb;
use crate::relayer::cached::Transaction;

verus! {

broadcast use crate::helpers::codec::lemma_le64_bytes_len, crate::helpers::codec::lemma_le128_bytes_len;

/// The single column of the record cache.
#[derive(Clone, Copy, Debug, PartialEq, Eq, Structural)]
pub enum CacheDbColumn {
    Transactions,
}

impl CacheDbColumn {
    pub fn count() -> (r: u32)
        ensures
            r == 1,
    {
        1
    }
}

/// The big-endian key of a record index.
pub open spec fn be64_key(x: u64) -> Seq<u8> {
    seq![
        (x >> 56) as u8,
        (x >> 48) as u8,
        (x >> 40) as u8,
        (x >> 32) as u8,
        (x >> 24) as u8,
        (x >> 16) as u8,
        (x >> 8) as u8,
        x as u8,
    ]
}

pub fn be64_key_vec(x: u64) -> (r: Vec<u8>)
    ensures
        r@ == be64_key(x),
{
    let mut out: Vec<u8> = Vec::new();
    out.push((x >> 56) as u8);
    out.push((x >> 48) as u8);
    out.push((x >> 40) as u8);
    out.push((x >> 32) as u8);
    out.push((x >> 24) as u8);
    out.push((x >> 16) as u8);
    out.push((x >> 8) as u8);
    out.push(x as u8);
    proof {
        assert(out@ =~= be64_key(x));
    }
    out
}

/// The tag byte of a flag.
pub open spec fn bool_byte(b: bool) -> u8 {
    if b {
        1u8
    } else {
        0u8
    }
}

/// The wire form of one cached record.
#[verifier::opaque]
pub open spec fn enc_tx(t: Transaction) -> Seq<u8> {
    enc_u64(t.index) + enc_bytes(t.memo@) + enc_u128(t.commitment.hi) + enc_u128(t.commitment.lo)
        + enc_str(t.tx_hash@) + seq![bool_byte(t.optimistic)]
}

/// Two records agree on the wire.
pub open spec fn tx_matches(a: Transaction, b: Transaction) -> bool {
    &&& a.index == b.index
    &&& a.memo@ == b.memo@
    &&& a.commitment == b.commitment
    &&& a.tx_hash@ == b.tx_hash@
    &&& a.optimistic == b.optimistic
}

pub fn encode_tx(t: &Transaction) -> (r: Vec<u8>)
    ensures
        r@ == enc_tx(*t),
{
    let mut out: Vec<u8> = Vec::new();
    put_u64(&mut out, t.index);
    put_bytes(&mut out, &t.memo);
    put_u128(&mut out, t.commitment.hi);
    put_u128(&mut out, t.commitment.lo);
    put_str(&mut out, t.tx_hash.as_str());
    put_u8(
        &mut out,
        if t.optimistic {
            1u8
        } else {
            0u8
        },
    );
    proof {
        reveal(enc_tx);
        assert(out@ =~= enc_tx(*t));
    }
    out
}

/// Where the leading fields of a record encoding sit and how they read
/// back.
#[verifier::rlimit(100)]
#[verifier::spinoff_prover]
proof fn lemma_tx_fields_a(buf: Seq<u8>, t: Transaction)
    requires
        buf.len() <= usize::MAX,
        buf == enc_tx(t),
    ensures
        ({
            let o1 = 8int;
            let o2 = o1 + enc_bytes(t.memo@).len();
            let o3 = o2 + 16;
            &&& rd_u64(buf, 0) == Some((t.index, o1))
            &&& rd_bytes(buf, o1) == Some((t.memo@, o2))
            &&& rd_u128(buf, o2) == Some((t.commitment.hi, o3))
        }),
{
    reveal(enc_tx);
    let e1 = enc_u64(t.index);
    let e2 = enc_bytes(t.memo@);
    let e3 = enc_u128(t.commitment.hi);
    let e4 = enc_u128(t.commitment.lo);
    let e5 = enc_str(t.tx_hash@);
    let e6 = seq![bool_byte(t.optimistic)];
    assert(t.memo@.len() <= buf.len());
    let c1 = e1;
    let c2 = c1 + e2;
    let c3 = c2 + e3;
    let c4 = c3 + e4;
    let c5 = c4 + e5;
    assert(buf == c5 + e6);
    lemma_concat_parts(c5, e6);
    assert(buf.subrange(0, c5.len() as int) == c5);
    lemma_concat_parts(c4, e5);
    lemma_subrange_of_prefix(buf, 0, c4.len() as int, c5.len() as int);
    assert(buf.subrange(0, c4.len() as int) == c4);
    lemma_concat_parts(c3, e4);
    lemma_subrange_of_prefix(buf, 0, c3.len() as int, c4.len() as int);
    assert(buf.subrange(0, c3.len() as int) == c3);
    lemma_concat_parts(c2, e3);
    lemma_subrange_of_prefix(buf, c2.len() as int, c3.len() as int, c3.len() as int);
    assert(buf.subrange(c2.len() as int, c3.len() as int) == e3);
    lemma_subrange_of_prefix(buf, 0, c2.len() as int, c3.len() as int);
    assert(buf.subrange(0, c2.len() as int) == c2);
    lemma_concat_parts(c1, e2);
    lemma_subrange_of_prefix(buf, c1.len() as int, c2.len() as int, c2.len() as int);
    assert(buf.subrange(c1.len() as int, c2.len() as int) == e2);
    lemma_subrange_of_prefix(buf, 0, c1.len() as int, c2.len() as int);
    assert(buf.subrange(0, c1.len() as int) == e1);
    lemma_rd_u64_at(buf, 0, t.index);
    lemma_rd_bytes_at(buf, c1.len() as int, t.memo@);
    lemma_rd_u128_at(buf, c2.len() as int, t.commitment.hi);
}

/// Where the trailing fields of a record encoding sit and how they read
/// back.
#[verifier::rlimit(100)]
#[verifier::spinoff_prover]
proof fn lemma_tx_fields_b(buf: Seq<u8>, t: Transaction)
    requires
        buf.len() <= usize::MAX,
        buf == enc_tx(t),
    ensures
        ({
            let o1 = 8int;
            let o2 = o1 + enc_bytes(t.memo@).len();
            let o3 = o2 + 16;
            let o4 = o3 + 16;
            let o5 = o4 + enc_str(t.tx_hash@).len();
            &&& rd_u128(buf, o3) == Some((t.commitment.lo, o4))
            &&& rd_str(buf, o4) == Some((t.tx_hash@, o5))
            &&& rd_u8(buf, o5) == Some((bool_byte(t.optimistic), buf.len() as int))
            &&& buf.len() == o5 + 1
        }),
{
    reveal(enc_tx);
    let e1 = enc_u64(t.index);
    let e2 = enc_bytes(t.memo@);
    let e3 = enc_u128(t.commitment.hi);
    let e4 = enc_u128(t.commitment.lo);
    let e5 = enc_str(t.tx_hash@);
    let e6 = seq![bool_byte(t.optimistic)];
    assert(vstd::utf8::encode_utf8(t.tx_hash@).len() <= buf.len());
    let c1 = e1;
    let c2 = c1 + e2;
    let c3 = c2 + e3;
    let c4 = c3 + e4;
    let c5 = c4 + e5;
    assert(buf == c5 + e6);
    lemma_concat_parts(c5, e6);
    assert(buf.subrange(0, c5.len() as int) == c5);
    assert(buf.subrange(c5.len() as int, buf.len() as int) == e6);
    assert(buf[c5.len() as int] == e6[0]);
    lemma_concat_parts(c4, e5);
    lemma_subrange_of_prefix(buf, c4.len() as int, c5.len() as int, c5.len() as int);
    assert(buf.subrange(c4.len() as int, c5.len() as int) == e5);
    lemma_subrange_of_prefix(buf, 0, c4.len() as int, c5.len() as int);
    assert(buf.subrange(0, c4.len() as int) == c4);
    lemma_concat_parts(c3, e4);
    lemma_subrange_of_prefix(buf, c3.len() as int, c4.len() as int, c4.len() as int);
    assert(buf.subrange(c3.len() as int, c4.len() as int) == e4);
    lemma_rd_u128_at(buf, c3.len() as int, t.commitment.lo);
    lemma_rd_str_at(buf, c4.len() as int, t.tx_hash@);
}

/// Both halves together.
proof fn lemma_tx_fields(buf: Seq<u8>, t: Transaction)
    requires
        buf.len() <= usize::MAX,
        buf == enc_tx(t),
    ensures
        ({
            let o1 = 8int;
            let o2 = o1 + enc_bytes(t.memo@).len();
            let o3 = o2 + 16;
            let o4 = o3 + 16;
            let o5 = o4 + enc_str(t.tx_hash@).len();
            &&& rd_u64(buf, 0) == Some((t.index, o1))
            &&& rd_bytes(buf, o1) == Some((t.memo@, o2))
            &&& rd_u128(buf, o2) == Some((t.commitment.hi, o3))
            &&& rd_u128(buf, o3) == Some((t.commitment.lo, o4))
            &&& rd_str(buf, o4) == Some((t.tx_hash@, o5))
            &&& rd_u8(buf, o5) == Some((bool_byte(t.optimistic), buf.len() as int))
            &&& buf.len() == o5 + 1
        }),
{
    lemma_tx_fields_a(buf, t);
    lemma_tx_fields_b(buf, t);
}

/// Reads a record back, matching on the wire; the decoded index is the
/// first field of the row.
#[verifier::rlimit(100)]
pub fn decode_tx(buf: &Vec<u8>) -> (r: Option<Transaction>)
    ensures
        forall|t: Transaction| buf@ == enc_tx(t) ==> (r matches Some(v) && tx_matches(v, t)),
        r matches Some(v) ==> rd_u64(buf@, 0) == Some((v.index, 8int)),
{
    let blen = buf.len();
    proof {
        assert(buf@.len() <= usize::MAX);
    }
    let step1 = get_u64(buf, 0);
    let (index, o1) = match step1 {
        Some(x) => x,
        None => {
            proof {
                assert forall|t: Transaction| buf@ == enc_tx(t) implies false by {
                    lemma_tx_fields(buf@, t);
                }
            }
            return None;
        },
    };
    let step2 = get_bytes(buf, o1);
    let (memo, o2) = match step2 {
        Some(x) => x,
        None => {
            proof {
                assert forall|t: Transaction| buf@ == enc_tx(t) implies false by {
                    lemma_tx_fields(buf@, t);
                }
            }
            return None;
        },
    };
    let step3 = get_u128(buf, o2);
    let (hi, o3) = match step3 {
        Some(x) => x,
        None => {
            proof {
                assert forall|t: Transaction| buf@ == enc_tx(t) implies false by {
                    lemma_tx_fields(buf@, t);
                }
            }
            return None;
        },
    };
    let step4 = get_u128(buf, o3);
    let (lo, o4) = match step4 {
        Some(x) => x,
        None => {
            proof {
                assert forall|t: Transaction| buf@ == enc_tx(t) implies false by {
                    lemma_tx_fields(buf@, t);
                }
            }
            return None;
        },
    };
    let step5 = get_str(buf, o4);
    let (tx_hash, o5) = match step5 {
        Some(x) => x,
        None => {
            proof {
                assert forall|t: Transaction| buf@ == enc_tx(t) implies false by {
                    lemma_tx_fields(buf@, t);
                }
            }
            return None;
        },
    };
    let step6 = get_u8(buf, o5);
    let (flag, _o6) = match step6 {
        Some(x) => x,
        None => {
            proof {
                assert forall|t: Transaction| buf@ == enc_tx(t) implies false by {
                    lemma_tx_fields(buf@, t);
                }
            }
            return None;
        },
    };
    let v = Transaction {
        index,
        memo,
        commitment: Fr256 { hi, lo },
        tx_hash,
        optimistic: flag != 0,
    };
    proof {
        assert forall|t: Transaction| buf@ == enc_tx(t) implies tx_matches(v, t) by {
            lemma_tx_fields(buf@, t);
        }
    }
    Some(v)
}

/// The record cache is coherent: the row under the key of index `x`
/// starts with the field `x`.
pub open spec fn cache_wf(rows: Map<(u32, Seq<u8>), Seq<u8>>) -> bool {
    forall|x: u64|
        rows.contains_key((0u32, be64_key(x))) ==> rd_u64(
            #[trigger] rows[(0u32, be64_key(x))],
            0,
        ) == Some((x, 8int))
}

/// The persistent record cache.
pub struct Db {
    db: KeyValueDb,
}

impl Db {
    pub closed spec fn wf(&self) -> bool {
        self.db.wf() && self.db.columns_spec() == 1
    }

    pub closed spec fn rows(&self) -> Map<(u32, Seq<u8>), Seq<u8>> {
        self.db.contents()
    }

    pub fn new() -> (r: Db)
        ensures
            r.wf(),
            r.rows() == crate::helpers::db::empty_contents(),
            cache_wf(r.rows()),
    {
        Db { db: KeyValueDb::new(CacheDbColumn::count()) }
    }

    /// Persists a batch of mined records in one atomic write, each under
    /// its index key: afterwards the rows are exactly the old rows with
    /// the batch applied, every saved index is present (the last record
    /// of the batch with that index winning), and the cache stays
    /// coherent.
    #[verifier::rlimit(100)]
    pub fn save_txs(&mut self, txs: &Vec<Transaction>) -> (r: Result<(), CloudError>)
        requires
            old(self).wf(),
            cache_wf(old(self).rows()),
            forall|i: int| 0 <= i < txs@.len() ==> !(#[trigger] txs@[i]).optimistic,
        ensures
            final(self).wf(),
            r is Ok,
            final(self).rows() == crate::cloud::db::seq_batch_insert(
                old(self).rows(),
                tx_batch(txs@, txs@.len() as int),
            ),
            cache_wf(final(self).rows()),
            forall|i: int|
                0 <= i < txs@.len() ==> final(self).rows().contains_key(
                    (0u32, be64_key((#[trigger] txs@[i]).index)),
                ) && (exists|j: int|
                    0 <= j < txs@.len() && txs@[j].index == txs@[i].index
                        && final(self).rows()[(0u32, be64_key(txs@[i].index))]
                        == #[trigger] enc_tx(txs@[j])),
    {
        let n = txs.len();
        let mut kvs: Vec<(Vec<u8>, Vec<u8>)> = Vec::new();
        let mut i: usize = 0;
        while i < n
            invariant
                n == txs@.len(),
                i <= n,
                kvs@.len() == i,
                forall|q: int|
                    0 <= q < i ==> (#[trigger] kvs@[q]).0@ == be64_key(txs@[q].index)
                        && kvs@[q].1@ == enc_tx(txs@[q]),
                forall|q: int| 0 <= q < i ==> #[trigger] enc_tx(txs@[q]).len() <= usize::MAX,
            decreases n - i,
        {
            let t = &txs[i];
            let value = encode_tx(t);
            let vlen = value.len();
            kvs.push((be64_key_vec(t.index), value));
            i = i + 1;
        }
        let res = self.db.save_all_raw(0, &kvs);
        proof {
            assert(res is Ok);
            crate::cloud::db::lemma_batch_views(
                old(self).rows(),
                0u32,
                kvs@,
                tx_batch(txs@, txs@.len() as int),
            );
            lemma_tx_batch_effect(old(self).rows(), txs@, txs@.len() as int);
        }
        Ok(())
    }

    /// The cached prefix of a window: records at `offset`, `offset + 128`,
    /// and so on, taken while present and readable, at most `limit` of
    /// them. Each returned record carries exactly the index of its
    /// position, matches whatever record row is stored there, and the run
    /// is maximal: it stops only at the limit or at the first window key
    /// with no stored record row.
    #[verifier::rlimit(100)]
    #[verifier::loop_isolation(false)]
    pub fn get_txs(&self, offset: u64, limit: u64) -> (r: Vec<Transaction>)
        requires
            self.wf(),
            cache_wf(self.rows()),
            limit <= 0x0100_0000,
            offset + limit * OUT_PLUS_ONE <= u64::MAX,
        ensures
            r@.len() <= limit,
            forall|k: int|
                0 <= k < r@.len() ==> (#[trigger] r@[k]).index == offset + k * OUT_PLUS_ONE,
            forall|k: int|
                0 <= k < r@.len() ==> self.rows().contains_key(
                    (0u32, be64_key((#[trigger] r@[k]).index)),
                ) && (forall|t: Transaction|
                    self.rows()[(0u32, be64_key(r@[k].index))] == #[trigger] enc_tx(t)
                        ==> tx_matches(r@[k], t)),
            r@.len() < limit ==> (!self.rows().contains_key(
                (0u32, be64_key((offset + r@.len() * OUT_PLUS_ONE) as u64)),
            ) || !(exists|t: Transaction|
                self.rows()[(0u32, be64_key((offset + r@.len() * OUT_PLUS_ONE) as u64))]
                    == #[trigger] enc_tx(t))),
    {
        let mut out: Vec<Transaction> = Vec::new();
        let mut k: u64 = 0;
        while k < limit
            invariant
                k <= limit,
                out@.len() == k,
                forall|q: int|
                    0 <= q < k ==> (#[trigger] out@[q]).index == offset + q * OUT_PLUS_ONE,
                forall|q: int|
                    0 <= q < k ==> self.rows().contains_key(
                        (0u32, be64_key((#[trigger] out@[q]).index)),
                    ) && (forall|t: Transaction|
                        self.rows()[(0u32, be64_key(out@[q].index))] == #[trigger] enc_tx(t)
                            ==> tx_matches(out@[q], t)),
            decreases limit - k,
        {
            proof {
                assert((k as int + 1) * OUT_PLUS_ONE <= limit * OUT_PLUS_ONE) by (nonlinear_arith)
                    requires
                        k as int + 1 <= limit,
                        OUT_PLUS_ONE > 0,
                ;
                assert(k as int * OUT_PLUS_ONE >= 0) by (nonlinear_arith)
                    requires
                        k >= 0,
                ;
            }
            let index = offset + k * OUT_PLUS_ONE;
            let key = be64_key_vec(index);
            match self.db.get_raw(0, &key) {
                Ok(Some(value)) => {
                    match decode_tx(&value) {
                        Some(tx) => {
                            proof {
                                assert(rd_u64(value@, 0) == Some((index, 8int)));
                                assert forall|t: Transaction|
                                    self.rows()[(0u32, be64_key(index))] == #[trigger] enc_tx(
                                    t,
                                ) implies tx_matches(tx, t) by {
                                    assert(value@ == enc_tx(t));
                                }
                            }
                            out.push(tx);
                        },
                        None => {
                            proof {
                                assert forall|t: Transaction|
                                    self.rows()[(0u32, be64_key(index))] == #[trigger] enc_tx(
                                    t,
                                ) implies false by {}
                            }
                            return out;
                        },
                    }
                },
                Ok(None) => {
                    return out;
                },
                Err(_) => {
                    proof {
                        assert(false);
                    }
                },
            }
            k = k + 1;
        }
        out
    }
}

/// The pairs a record batch writes: each record's row under its index
/// key.
pub open spec fn tx_batch(txs: Seq<Transaction>, n: int) -> Seq<((u32, Seq<u8>), Seq<u8>)> {
    Seq::new(n as nat, |i: int| ((0u32, be64_key(txs[i].index)), enc_tx(txs[i])))
}

/// Applying a record batch keeps the cache coherent and leaves every
/// batched index present, the last record with that index winning.
proof fn lemma_tx_batch_effect(m: Map<(u32, Seq<u8>), Seq<u8>>, txs: Seq<Transaction>, n: int)
    requires
        0 <= n <= txs.len(),
        cache_wf(m),
        forall|i: int| 0 <= i < n ==> #[trigger] enc_tx(txs[i]).len() <= usize::MAX,
    ensures
        cache_wf(crate::cloud::db::seq_batch_insert(m, tx_batch(txs, n))),
        forall|i: int|
            0 <= i < n ==> crate::cloud::db::seq_batch_insert(m, tx_batch(txs, n)).contains_key(
                (0u32, be64_key((#[trigger] txs[i]).index)),
            ) && (exists|j: int|
                0 <= j < n && txs[j].index == txs[i].index && crate::cloud::db::seq_batch_insert(
                    m,
                    tx_batch(txs, n),
                )[(0u32, be64_key(txs[i].index))] == #[trigger] enc_tx(txs[j])),
    decreases n,
{
    if n > 0 {
        lemma_tx_batch_effect(m, txs, n - 1);
        let prev = crate::cloud::db::seq_batch_insert(m, tx_batch(txs, n - 1));
        let cur = crate::cloud::db::seq_batch_insert(m, tx_batch(txs, n));
        assert(tx_batch(txs, n).drop_last() =~= tx_batch(txs, n - 1));
        assert(cur == prev.insert((0u32, be64_key(txs[n - 1].index)), enc_tx(txs[n - 1])));
        lemma_tx_fields(enc_tx(txs[n - 1]), txs[n - 1]);
        assert forall|x: u64|
            cur.contains_key((0u32, be64_key(x))) implies rd_u64(
            #[trigger] cur[(0u32, be64_key(x))],
            0,
        ) == Some((x, 8int)) by {
            if be64_key(x) == be64_key(txs[n - 1].index) {
                lemma_be64_key_injective(x, txs[n - 1].index);
            }
        }
        assert forall|i: int|
            0 <= i < n implies cur.contains_key((0u32, be64_key((#[trigger] txs[i]).index))) && (
        exists|j: int|
            0 <= j < n && txs[j].index == txs[i].index && cur[(0u32, be64_key(txs[i].index))]
                == #[trigger] enc_tx(txs[j])) by {
            if txs[i].index == txs[n - 1].index {
                assert(cur[(0u32, be64_key(txs[i].index))] == enc_tx(txs[n - 1]));
            } else {
                let j = choose|j: int|
                    0 <= j < n - 1 && txs[j].index == txs[i].index && prev[(
                        0u32,
                        be64_key(txs[i].index),
                    )] == #[trigger] enc_tx(txs[j]);
                lemma_be64_key_injective_contra(txs[i].index, txs[n - 1].index);
                assert(cur[(0u32, be64_key(txs[i].index))] == enc_tx(txs[j]));
            }
        }
    }
}

/// Distinct indices have distinct keys, contrapositive form.
proof fn lemma_be64_key_injective_contra(a: u64, b: u64)
    requires
        a != b,
    ensures
        be64_key(a) != be64_key(b),
{
    if be64_key(a) == be64_key(b) {
        lemma_be64_key_injective(a, b);
    }
}

/// Distinct indices have distinct keys.
pub proof fn lemma_be64_key_injective(a: u64, b: u64)
    requires
        be64_key(a) == be64_key(b),
    ensures
        a == b,
{
    assert(be64_key(a)[0] == be64_key(b)[0] && be64_key(a)[1] == be64_key(b)[1] && be64_key(a)[2]
        == be64_key(b)[2] && be64_key(a)[3] == be64_key(b)[3] && be64_key(a)[4] == be64_key(b)[4]
        && be64_key(a)[5] == be64_key(b)[5] && be64_key(a)[6] == be64_key(b)[6] && be64_key(a)[7]
        == be64_key(b)[7]);
    assert(((a >> 56) as u8 == (b >> 56) as u8 && (a >> 48) as u8 == (b >> 48) as u8 && (a
        >> 40) as u8 == (b >> 40) as u8 && (a >> 32) as u8 == (b >> 32) as u8 && (a >> 24) as u8
        == (b >> 24) as u8 && (a >> 16) as u8 == (b >> 16) as u8 && (a >> 8) as u8 == (b
        >> 8) as u8 && a as u8 == b as u8) ==> a == b) by (bit_vector);
}

} // verus!