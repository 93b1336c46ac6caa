//! Pool records as the relayer reports them, and the algorithm that merges
//! the persistent cache of mined records with freshly fetched ones.

use vstd::prelude::*;

use crate::Fr256;
use crate::OUT_PLUS_ONE;
use crate::account::crypto::fr_reduce_be;
use crate::account::crypto::fr_from_be_bytes;
use crate::errors::CloudError;
use crate::helpers::hex::{hex_decode, hex_decode_of, lemma_hex_decode_len};

verus! {

/// One pool record: its tree index, the raw memo, the record's commitment,
/// the chain transaction hash, and whether the record is still optimistic
/// (accepted by the relayer but not yet mined).
#[derive(Clone, Debug, PartialEq, Eq)]
pub struct Transaction {
    pub index: u64,
    pub memo: Vec<u8>,
    pub commitment: Fr256,
    pub tx_hash: String,
    pub optimistic: bool,
}

/// Spec-level form of a [`Transaction`].
pub ghost struct TransactionModel {
    pub index: u64,
    pub memo: Seq<u8>,
    pub commitment: Fr256,
    pub tx_hash: Seq<char>,
    pub optimistic: bool,
}

impl View for Transaction {
    type V = TransactionModel;

    open spec fn view(&self) -> TransactionModel {
        TransactionModel {
            index: self.index,
            memo: self.memo@,
            commitment: self.commitment,
            tx_hash: self.tx_hash@,
            optimistic: self.optimistic,
        }
    }
}

/// Whether a relayer record string is well-formed: a mined flag, 64 hex
/// digits of transaction hash, 64 hex digits of big-endian commitment, and
/// a hex memo.
pub open spec fn record_well_formed(s: Seq<char>) -> bool {
    &&& s.len() >= 129
    &&& hex_decode_of(s.subrange(65, 129)) is Some
    &&& hex_decode_of(s.subrange(129, s.len() as int)) is Some
}

/// A record is optimistic unless its first character is `'1'`.
pub open spec fn record_optimistic(s: Seq<char>) -> bool {
    s[0] != '1'
}

/// Parses one relayer record string into a pool record at the given tree
/// index: succeeds exactly on well-formed strings.
pub fn parse_relayer_record(index: u64, s: &str) -> (r: Result<Transaction, CloudError>)
    ensures
        r is Ok <==> record_well_formed(s@),
        r matches Ok(t) ==> ({
            &&& t.index == index
            &&& t.optimistic == record_optimistic(s@)
            &&& t.tx_hash@ == "0x"@ + s@.subrange(1, 65)
            &&& t.commitment == fr_reduce_be(hex_decode_of(s@.subrange(65, 129)).unwrap())
            &&& t.memo@ == hex_decode_of(s@.subrange(129, s@.len() as int)).unwrap()
        }),
        r matches Err(e) ==> e matches CloudError::InternalError(_),
{
    let n = s.unicode_len();
    if n < 129 {
        return Err(CloudError::InternalError(String::from_str("relayer record is too short")));
    }
    let optimistic = s.get_char(0) != '1';
    let hash_part = s.substring_char(1, 65);
    let mut tx_hash = String::from_str("0x");
    tx_hash.append(hash_part);
    let commitment_hex = s.substring_char(65, 129);
    let commitment_bytes = match hex_decode(commitment_hex) {
        Some(b) => b,
        None => {
            return Err(
                CloudError::InternalError(String::from_str("relayer record commitment is not hex")),
            );
        },
    };
    proof {
        lemma_hex_decode_len(s@.subrange(65, 129));
    }
    let commitment = fr_from_be_bytes(commitment_bytes.as_slice());
    let memo_hex = s.substring_char(129, n);
    let memo = match hex_decode(memo_hex) {
        Some(b) => b,
        None => {
            return Err(
                CloudError::InternalError(String::from_str("relayer record memo is not hex")),
            );
        },
    };
    Ok(Transaction { index, memo, commitment, tx_hash, optimistic })
}

/// Which of the fetched records are kept: all of them, or only the mined
/// ones.
pub open spec fn kept_fetched(fetched: Seq<String>, with_optimistic: bool, n: int) -> Seq<int>
    decreases n,
{
    if n <= 0 {
        Seq::empty()
    } else {
        kept_fetched(fetched, with_optimistic, n - 1) + if with_optimistic || !record_optimistic(
            fetched[n - 1]@,
        ) {
            seq![n - 1]
        } else {
            Seq::empty()
        }
    }
}

/// Whether a merged record is the reading of a fetched string at an
/// index.
pub open spec fn merged_record_ok(t: Transaction, s: Seq<char>, index: int) -> bool {
    &&& t.index == index
    &&& t.optimistic == record_optimistic(s)
    &&& t.tx_hash@ == "0x"@ + s.subrange(1, 65)
    &&& t.commitment == fr_reduce_be(hex_decode_of(s.subrange(65, 129)).unwrap())
    &&& t.memo@ == hex_decode_of(s.subrange(129, s.len() as int)).unwrap()
}

/// Merges the cached prefix of a window with freshly fetched record
/// strings.
///
/// Record `i` of the fetch sits at tree index `fetch_offset + i * 128`;
/// optimistic records are dropped unless asked for. When every record is
/// mined — in particular whenever `with_optimistic` is false and the
/// relayer reported only mined records — the result's indices are exactly
/// `offset + k * 128` for `k = 0 .. n-1`, strictly increasing.
pub fn merge_fetched(
    cached: Vec<Transaction>,
    fetched: &Vec<String>,
    fetch_offset: u64,
    with_optimistic: bool,
) -> (r: Result<Vec<Transaction>, CloudError>)
    requires
        fetched@.len() <= 0x0100_0000,
        fetch_offset + fetched@.len() * OUT_PLUS_ONE <= u64::MAX,
    ensures
        r is Ok <==> forall|i: int|
            0 <= i < fetched@.len() ==> record_well_formed((#[trigger] fetched@[i])@),
        r matches Ok(out) ==> ({
            let kept = kept_fetched(fetched@, with_optimistic, fetched@.len() as int);
            &&& out@.len() == cached@.len() + kept.len()
            &&& forall|k: int| 0 <= k < cached@.len() ==> out@[k] == cached@[k]
            &&& forall|k: int|
                0 <= k < kept.len() ==> #[trigger] merged_record_ok(
                    out@[cached@.len() + k],
                    fetched@[kept[k]]@,
                    fetch_offset + kept[k] * OUT_PLUS_ONE,
                )
        }),
{
    let mut out = cached;
    let ghost cached_len = out@.len();
    let n = fetched.len();
    let mut i: usize = 0;
    while i < n
        invariant
            n == fetched@.len(),
            n <= 0x0100_0000,
            fetch_offset + n * OUT_PLUS_ONE <= u64::MAX,
            i <= n,
            forall|q: int| 0 <= q < i ==> record_well_formed((#[trigger] fetched@[q])@),
            out@.len() == cached_len + kept_fetched(fetched@, with_optimistic, i as int).len(),
            forall|k: int| 0 <= k < cached_len ==> out@[k] == cached@[k],
            cached_len <= out@.len(),
            forall|k: int|
                0 <= k < kept_fetched(fetched@, with_optimistic, i as int).len()
                    ==> #[trigger] merged_record_ok(
                    out@[cached_len + k],
                    fetched@[kept_fetched(fetched@, with_optimistic, i as int)[k]]@,
                    fetch_offset + kept_fetched(fetched@, with_optimistic, i as int)[k]
                        * OUT_PLUS_ONE,
                ),
        decreases n - i,
    {
        proof {
            assert((i as int + 1) * OUT_PLUS_ONE <= n * OUT_PLUS_ONE) by (nonlinear_arith)
                requires
                    i as int + 1 <= n,
                    OUT_PLUS_ONE > 0,
            ;
            assert(i as int * OUT_PLUS_ONE >= 0) by (nonlinear_arith)
                requires
                    i >= 0,
            ;
        }
        let index = fetch_offset + (i as u64) * OUT_PLUS_ONE;
        let tx = match parse_relayer_record(index, fetched[i].as_str()) {
            Ok(tx) => tx,
            Err(e) => {
                return Err(e);
            },
        };
        if with_optimistic || !tx.optimistic {
            out.push(tx);
        }
        proof {
            assert(kept_fetched(fetched@, with_optimistic, i as int + 1) =~= kept_fetched(
                fetched@,
                with_optimistic,
                i as int,
            ) + if with_optimistic || !record_optimistic(fetched@[i as int]@) {
                seq![i as int]
            } else {
                Seq::<int>::empty()
            });
        }
        i = i + 1;
    }
    Ok(out)
}

/// The positions of the mined records of a window, in order.
pub open spec fn kept_mined(txs: Seq<Transaction>, n: int) -> Seq<int>
    decreases n,
{
    if n <= 0 {
        Seq::empty()
    } else {
        kept_mined(txs, n - 1) + if !txs[n - 1].optimistic {
            seq![n - 1]
        } else {
            Seq::empty()
        }
    }
}

/// Picks the mined records of a merged window: exactly the non-optimistic
/// records of the input, in order, each copied field by field. These are
/// the ones the cache persists.
pub fn mined_of(txs: &Vec<Transaction>) -> (r: Vec<Transaction>)
    ensures
        r@.len() == kept_mined(txs@, txs@.len() as int).len(),
        forall|k: int|
            0 <= k < r@.len() ==> !(#[trigger] r@[k]).optimistic
                && crate::relayer::db::tx_matches(
                r@[k],
                txs@[kept_mined(txs@, txs@.len() as int)[k]],
            ),
{
    let mut out: Vec<Transaction> = Vec::new();
    let n = txs.len();
    let mut i: usize = 0;
    while i < n
        invariant
            n == txs@.len(),
            i <= n,
            out@.len() == kept_mined(txs@, i as int).len(),
            forall|k: int|
                0 <= k < out@.len() ==> !(#[trigger] out@[k]).optimistic
                    && crate::relayer::db::tx_matches(
                    out@[k],
                    txs@[kept_mined(txs@, i as int)[k]],
                ),
        decreases n - i,
    {
        let t = &txs[i];
        if !t.optimistic {
            out.push(
                Transaction {
                    index: t.index,
                    memo: t.memo.clone(),
                    commitment: t.commitment,
                    tx_hash: t.tx_hash.clone(),
                    optimistic: false,
                },
            );
        }
        proof {
            assert(kept_mined(txs@, i as int + 1) =~= kept_mined(txs@, i as int) + if !txs@[
                i as int].optimistic {
                seq![i as int]
            } else {
                Seq::<int>::empty()
            });
        }
        i = i + 1;
    }
    proof {
        assert(kept_mined(txs@, n as int) =~= kept_mined(txs@, txs@.len() as int));
    }
    out
}

/// Without optimistic records, and with the mined records forming a
/// prefix of the fetch — which they do, since the relayer reports mined
/// state before pending state — the kept positions are exactly
/// `0, 1, 2, ...`. Together with [`merge_fetched`]'s contract this puts
/// the `k`-th record of a merged window at tree index
/// `offset + k * 128`, strictly increasing: the window is one arithmetic
/// sequence of whole records.
pub proof fn lemma_mined_prefix_kept(fetched: Seq<String>, n: int)
    requires
        n <= fetched.len(),
        forall|i: int, j: int|
            0 <= i < j < n ==> (!record_optimistic((#[trigger] fetched[j])@)
                ==> !record_optimistic((#[trigger] fetched[i])@)),
    ensures
        forall|k: int|
            0 <= k < kept_fetched(fetched, false, n).len() ==> #[trigger] kept_fetched(
                fetched,
                false,
                n,
            )[k] == k,
    decreases n,
{
    if n > 0 {
        lemma_mined_prefix_kept(fetched, n - 1);
        if !record_optimistic(fetched[n - 1]@) {
            assert forall|i: int|
                0 <= i < n - 1 implies !record_optimistic((#[trigger] fetched[i])@) by {}
            lemma_kept_all_mined(fetched, n - 1);
            assert(kept_fetched(fetched, false, n) =~= kept_fetched(fetched, false, n - 1) + seq![
                n - 1,
            ]);
        }
    }
}

/// When every record of the prefix is mined, all of them are kept.
proof fn lemma_kept_all_mined(fetched: Seq<String>, n: int)
    requires
        n <= fetched.len(),
        forall|i: int| 0 <= i < n ==> !record_optimistic((#[trigger] fetched[i])@),
    ensures
        kept_fetched(fetched, false, n).len() == n || n < 0,
    decreases n,
{
    if n > 0 {
        lemma_kept_all_mined(fetched, n - 1);
    }
}

/// The window arithmetic of a sync: how many whole records separate the
/// account's next index from the target, never fetching past it.
pub fn sync_window(next_index: u64, target: u64) -> (r: (u64, u64))
    ensures
        r.0 == next_index,
        target >= next_index ==> r.1 == (target - next_index) / (OUT_PLUS_ONE as int),
        target < next_index ==> r.1 == 0,
{
    if target >= next_index {
        (next_index, (target - next_index) / OUT_PLUS_ONE)
    } else {
        (next_index, 0)
    }
}

} // verus!
