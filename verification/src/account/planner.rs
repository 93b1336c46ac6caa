//! The transfer planner: covers a requested amount by a chain of shielded
//! transactions, aggregating up to [`crate::NOTES_PER_TX`] usable notes per
//! transaction, because one proof can consume at most that many notes.
//!
//! The planner works on plain balances: the account's own balance and the
//! values of its usable notes, in the order the account engine yields them.

use vstd::prelude::*;

use crate::NOTES_PER_TX;
use crate::errors::CloudError;

verus! {

/// The sum of the first `n` note values.
pub open spec fn psum(notes: Seq<u64>, n: int) -> int
    decreases n,
{
    if n <= 0 {
        0
    } else {
        psum(notes, n - 1) + if n <= notes.len() {
            notes[n - 1] as int
        } else {
            0
        }
    }
}

pub proof fn lemma_psum_mono(notes: Seq<u64>, m: int, n: int)
    requires
        m <= n,
    ensures
        psum(notes, m) <= psum(notes, n),
    decreases n - m,
{
    if m < n {
        lemma_psum_mono(notes, m, n - 1);
    }
}

pub proof fn lemma_psum_nonneg(notes: Seq<u64>, n: int)
    ensures
        psum(notes, n) >= 0,
    decreases n,
{
    if n > 0 {
        lemma_psum_nonneg(notes, n - 1);
    }
}

/// How far chunk `k` reaches into the note list.
pub open spec fn chunk_end(notes: Seq<u64>, k: int) -> int {
    if 3 * k <= notes.len() {
        3 * k
    } else {
        notes.len() as int
    }
}

/// Whether the plan that uses the first `k` chunks covers the request:
/// the account balance plus those notes must pay the amount and one fee per
/// planned transaction (`k` of them, or a single one when `k == 0`).
pub open spec fn covered_by(balance: u64, notes: Seq<u64>, amount: u64, fee: u64, k: int) -> bool {
    balance + psum(notes, chunk_end(notes, k)) >= amount + (if k < 1 {
        1
    } else {
        k
    }) * fee
}

/// The running balance after consuming the first `k` chunks, each paying
/// one fee. May go negative when a chunk is worth less than the fee.
pub open spec fn balance_after(balance: u64, notes: Seq<u64>, fee: u64, k: int) -> int {
    balance + psum(notes, chunk_end(notes, k)) - k * fee
}

/// The amount carried by intermediate part `i` (consolidating chunk
/// `i + 1`): the chunk's value less the fee, floored at zero so the part
/// remains a representable token amount.
pub open spec fn chunk_part_amount(notes: Seq<u64>, fee: u64, i: int) -> u64 {
    let v = psum(notes, chunk_end(notes, i + 1)) - psum(notes, chunk_end(notes, i)) - fee;
    if v <= 0 {
        0u64
    } else {
        v as u64
    }
}

/// Plans the parts of one transfer.
///
/// Returns, in submission order, one `(to, amount)` pair per shielded
/// transaction: every part but the last consolidates one chunk of notes
/// into the account (`to` is `None`), and the last one pays `amount` to the
/// requested address. Fails with `InsufficientBalance` exactly when no
/// prefix of note chunks, together with the account balance, can pay the
/// amount plus one fee per needed transaction.
pub fn get_tx_parts(balance: u64, notes: &Vec<u64>, amount: u64, fee: u64, to: &str) -> (r: Result<
    Vec<(Option<String>, u64)>,
    CloudError,
>)
    requires
        balance + psum(notes@, notes@.len() as int) <= u64::MAX,
        notes@.len() <= 0x1000_0000,
    ensures
        r is Ok <==> exists|k: int| k >= 0 && #[trigger] covered_by(balance, notes@, amount, fee, k),
        r matches Ok(parts) ==> exists|k: int|
            {
                &&& k >= 0
                &&& #[trigger] covered_by(balance, notes@, amount, fee, k)
                &&& forall|j: int| 0 <= j < k ==> !covered_by(balance, notes@, amount, fee, j)
                &&& parts@.len() == if k < 1 {
                    1int
                } else {
                    k
                }
                &&& parts@.last().0 matches Some(s) && s@ == to@
                &&& parts@.last().1 == amount
                &&& forall|i: int|
                    0 <= i < parts@.len() - 1 ==> (#[trigger] parts@[i]).0 is None && parts@[i].1
                        == chunk_part_amount(notes@, fee, i)
            },
        r matches Err(e) ==> e == CloudError::InsufficientBalance && forall|k: int|
            k >= 0 ==> !#[trigger] covered_by(balance, notes@, amount, fee, k),
{
    let len = notes.len();
    let target: u128 = amount as u128 + fee as u128;

    if balance as u128 >= target {
        proof {
            assert(chunk_end(notes@, 0) == 0);
            assert(covered_by(balance, notes@, amount, fee, 0));
        }
        let mut parts: Vec<(Option<String>, u64)> = Vec::new();
        parts.push((Some(to.to_owned()), amount));
        return Ok(parts);
    }

    let mut parts: Vec<(Option<String>, u64)> = Vec::new();
    let mut bal: i128 = balance as i128;
    let mut j: usize = 0;
    let mut k: usize = 0;

    proof {
        lemma_psum_nonneg(notes@, notes@.len() as int);
        assert(chunk_end(notes@, 0) == 0);
    }

    while j < len
        invariant
            notes@.len() == len,
            balance + psum(notes@, notes@.len() as int) <= u64::MAX,
            notes@.len() <= 0x1000_0000,
            j <= len,
            k <= len,
            j as int == chunk_end(notes@, k as int),
            bal == balance_after(balance, notes@, fee, k as int),
            parts@.len() == k,
            forall|i: int|
                0 <= i < k ==> (#[trigger] parts@[i]).0 is None && parts@[i].1
                    == chunk_part_amount(notes@, fee, i),
            forall|i: int| 0 <= i <= k ==> !covered_by(balance, notes@, amount, fee, i),
            amount as u128 + fee as u128 == target,
        decreases len - j,
    {
        proof {
            if 3 * (k as int) > len as int {
                assert(chunk_end(notes@, k as int) == len as int);
                assert(false);
            }
            assert(3 * (k as int) == j as int);
            assert((k as int) * fee >= 0 && (k as int) * fee <= 0x1000_0000 * 0xFFFF_FFFF_FFFF_FFFFu64)
                by (nonlinear_arith)
                requires
                    0 <= k as int <= 0x1000_0000,
                    0 <= fee <= 0xFFFF_FFFF_FFFF_FFFFu64,
            ;
        }
        let chunk_to = if j + NOTES_PER_TX <= len {
            j + NOTES_PER_TX
        } else {
            len
        };
        let mut note_balance: u128 = 0;
        let mut m: usize = j;
        while m < chunk_to
            invariant
                j <= m <= chunk_to <= len,
                notes@.len() == len,
                balance + psum(notes@, notes@.len() as int) <= u64::MAX,
                note_balance == psum(notes@, m as int) - psum(notes@, j as int),
            decreases chunk_to - m,
        {
            proof {
                lemma_psum_mono(notes@, 0, j as int);
                lemma_psum_nonneg(notes@, j as int);
                lemma_psum_mono(notes@, m as int + 1, notes@.len() as int);
            }
            note_balance = note_balance + notes[m] as u128;
            m = m + 1;
        }

        proof {
            lemma_psum_mono(notes@, 0, j as int);
            lemma_psum_nonneg(notes@, j as int);
            lemma_psum_mono(notes@, chunk_to as int, notes@.len() as int);
            assert(chunk_end(notes@, k as int + 1) == chunk_to as int);
            assert((k as int + 1) * fee == (k as int) * fee + fee) by (nonlinear_arith);
        }

        if note_balance as i128 + bal >= target as i128 {
            proof {
                assert(covered_by(balance, notes@, amount, fee, k as int + 1));
            }
            parts.push((Some(to.to_owned()), amount));
            return Ok(parts);
        } else {
            let part_amount: u64 = if note_balance >= fee as u128 {
                (note_balance - fee as u128) as u64
            } else {
                0
            };
            proof {
                assert(psum(notes@, chunk_to as int) - psum(notes@, j as int) - fee
                    == note_balance - fee);
                assert(!covered_by(balance, notes@, amount, fee, k as int + 1));
            }
            parts.push((None, part_amount));
            bal = bal + note_balance as i128 - fee as i128;
            j = chunk_to;
            k = k + 1;
        }
    }

    proof {
        assert(j == len);
        assert(chunk_end(notes@, k as int) == len as int);
        assert forall|kk: int| kk >= 0 implies !covered_by(
            balance,
            notes@,
            amount,
            fee,
            kk,
        ) by {
            if kk > k {
                assert(3 * kk > 3 * (k as int));
                assert(chunk_end(notes@, kk) == len as int);
                let fk: int = if (k as int) < 1 {
                    1
                } else {
                    k as int
                };
                let fkk: int = if kk < 1 {
                    1
                } else {
                    kk
                };
                assert(fkk * fee >= fk * fee) by (nonlinear_arith)
                    requires
                        fkk >= fk,
                        fee >= 0,
                ;
                assert(!covered_by(balance, notes@, amount, fee, k as int));
            }
        }
    }
    Err(CloudError::InsufficientBalance)
}

/// The largest amount one transfer can currently move: mirror the planner,
/// consuming chunks while they can still pay their fee, and take the best
/// running balance less one final fee.
pub open spec fn mta_loop(cur: int, best: int, notes: Seq<u64>, fee: u64, j: int) -> int
    decreases notes.len() - j,
{
    if j < 0 || j >= notes.len() {
        best
    } else {
        let end = if j + 3 <= notes.len() {
            j + 3
        } else {
            notes.len() as int
        };
        let chunk = psum(notes, end) - psum(notes, j);
        if cur + chunk < fee {
            best
        } else {
            let cur2 = cur + chunk - fee;
            mta_loop(cur2, if cur2 > best {
                cur2
            } else {
                best
            }, notes, fee, end)
        }
    }
}

pub fn max_transfer_amount(balance: u64, notes: &Vec<u64>, fee: u64) -> (r: u64)
    requires
        balance + psum(notes@, notes@.len() as int) <= u64::MAX,
        notes@.len() <= 0x1000_0000,
    ensures
        r == mta_loop(
            balance as int,
            if balance > fee {
                balance - fee
            } else {
                0
            },
            notes@,
            fee,
            0,
        ),
{
    let len = notes.len();
    let mut max_amount: u64 = if balance > fee {
        balance - fee
    } else {
        0
    };
    let mut cur: u64 = balance;
    let mut j: usize = 0;

    proof {
        lemma_psum_nonneg(notes@, notes@.len() as int);
    }

    while j < len
        invariant
            notes@.len() == len,
            balance + psum(notes@, notes@.len() as int) <= u64::MAX,
            notes@.len() <= 0x1000_0000,
            j <= len,
            cur as int <= balance + psum(notes@, j as int),
            mta_loop(
                balance as int,
                if balance > fee {
                    (balance - fee) as int
                } else {
                    0
                },
                notes@,
                fee,
                0,
            ) == mta_loop(cur as int, max_amount as int, notes@, fee, j as int),
        decreases len - j,
    {
        let chunk_to = if j + NOTES_PER_TX <= len {
            j + NOTES_PER_TX
        } else {
            len
        };
        let mut note_balance: u128 = 0;
        let mut m: usize = j;
        while m < chunk_to
            invariant
                j <= m <= chunk_to <= len,
                notes@.len() == len,
                balance + psum(notes@, notes@.len() as int) <= u64::MAX,
                note_balance == psum(notes@, m as int) - psum(notes@, j as int),
            decreases chunk_to - m,
        {
            proof {
                lemma_psum_mono(notes@, 0, j as int);
                lemma_psum_mono(notes@, m as int + 1, notes@.len() as int);
            }
            note_balance = note_balance + notes[m] as u128;
            m = m + 1;
        }

        proof {
            lemma_psum_mono(notes@, 0, j as int);
            lemma_psum_mono(notes@, chunk_to as int, notes@.len() as int);
        }

        if (cur as u128 + note_balance) < fee as u128 {
            proof {
                assert(mta_loop(cur as int, max_amount as int, notes@, fee, j as int)
                    == max_amount as int);
            }
            return max_amount;
        }
        cur = ((cur as u128 + note_balance) - fee as u128) as u64;
        if cur > max_amount {
            max_amount = cur;
        }
        j = chunk_to;
    }

    max_amount
}

} // verus!
