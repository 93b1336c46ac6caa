//! The persistent chain-metadata cache, keyed by transaction hash. A
//! record, once written, is never changed: the chain value is stable below
//! the confirmation horizon.

use vstd::prelude::*;

use crate::errors::CloudError;
use crate::helpers::codec::{
    enc_i128, enc_u64, get_i128, get_u64, get_u8, lemma_concat_parts, lemma_rd_i128_at,
    lemma_rd_u64_at, lemma_subrange_of_prefix, put_i128, put_u64, put_u8, rd_i128, rd_u64, rd_u8,
};
use crate::helpers::db::KeyValueDb;
use crate::web3::cached::TxWeb3Info;

verus! {

broadcast use crate::helpers::codec::lemma_le64_bytes_len, crate::helpers::codec::lemma_le128_bytes_len;

/// The single column of the metadata cache.
#[derive(Clone, Copy, Debug, PartialEq, Eq, Structural)]
pub enum CacheDbCloumn {
    Web3,
}

impl CacheDbCloumn {
    pub fn count() -> (r: u32)
        ensures
            r == 1,
    {
        1
    }
}

pub open spec fn web3_tag(t: TxWeb3Info) -> u8 {
    match t {
        TxWeb3Info::Deposit(_, _, _) => 0,
        TxWeb3Info::Transfer(_, _, _) => 1,
        TxWeb3Info::Withdrawal(_, _, _) => 2,
        TxWeb3Info::DepositPermittable(_, _, _) => 3,
        TxWeb3Info::DirectDeposit(_, _) => 4,
    }
}

/// The wire form of one metadata record.
pub open spec fn enc_web3(t: TxWeb3Info) -> Seq<u8> {
    seq![web3_tag(t)] + (match t {
        TxWeb3Info::Deposit(ts, fee, ta) => enc_u64(ts) + enc_u64(fee) + enc_i128(ta),
        TxWeb3Info::Transfer(ts, fee, ta) => enc_u64(ts) + enc_u64(fee) + enc_i128(ta),
        TxWeb3Info::Withdrawal(ts, fee, ta) => enc_u64(ts) + enc_u64(fee) + enc_i128(ta),
        TxWeb3Info::DepositPermittable(ts, fee, ta) => enc_u64(ts) + enc_u64(fee) + enc_i128(ta),
        TxWeb3Info::DirectDeposit(ts, fee) => enc_u64(ts) + enc_u64(fee),
    })
}

/// A metadata record read back at spec level.
pub open spec fn rd_web3(buf: Seq<u8>) -> Option<TxWeb3Info> {
    match rd_u8(buf, 0) {
        Some((tag, p0)) => match rd_u64(buf, p0) {
            Some((ts, p1)) => match rd_u64(buf, p1) {
                Some((fee, p2)) => if tag == 4 {
                    Some(TxWeb3Info::DirectDeposit(ts, fee))
                } else {
                    match rd_i128(buf, p2) {
                        Some((ta, _)) => if tag == 0 {
                            Some(TxWeb3Info::Deposit(ts, fee, ta))
                        } else if tag == 1 {
                            Some(TxWeb3Info::Transfer(ts, fee, ta))
                        } else if tag == 2 {
                            Some(TxWeb3Info::Withdrawal(ts, fee, ta))
                        } else if tag == 3 {
                            Some(TxWeb3Info::DepositPermittable(ts, fee, ta))
                        } else {
                            None
                        },
                        None => None,
                    }
                },
                None => None,
            },
            None => None,
        },
        None => None,
    }
}

pub fn encode_web3(t: &TxWeb3Info) -> (r: Vec<u8>)
    ensures
        r@ == enc_web3(*t),
{
    let mut out: Vec<u8> = Vec::new();
    match t {
        TxWeb3Info::Deposit(ts, fee, ta) => {
            put_u8(&mut out, 0);
            put_u64(&mut out, *ts);
            put_u64(&mut out, *fee);
            put_i128(&mut out, *ta);
        },
        TxWeb3Info::Transfer(ts, fee, ta) => {
            put_u8(&mut out, 1);
            put_u64(&mut out, *ts);
            put_u64(&mut out, *fee);
            put_i128(&mut out, *ta);
        },
        TxWeb3Info::Withdrawal(ts, fee, ta) => {
            put_u8(&mut out, 2);
            put_u64(&mut out, *ts);
            put_u64(&mut out, *fee);
            put_i128(&mut out, *ta);
        },
        TxWeb3Info::DepositPermittable(ts, fee, ta) => {
            put_u8(&mut out, 3);
            put_u64(&mut out, *ts);
            put_u64(&mut out, *fee);
            put_i128(&mut out, *ta);
        },
        TxWeb3Info::DirectDeposit(ts, fee) => {
            put_u8(&mut out, 4);
            put_u64(&mut out, *ts);
            put_u64(&mut out, *fee);
        },
    }
    proof {
        assert(out@ =~= enc_web3(*t));
    }
    out
}

pub fn decode_web3(buf: &Vec<u8>) -> (r: Option<TxWeb3Info>)
    ensures
        r == rd_web3(buf@),
{
    let (tag, p0) = match get_u8(buf, 0) {
        Some(x) => x,
        None => {
            return None;
        },
    };
    let (ts, p1) = match get_u64(buf, p0) {
        Some(x) => x,
        None => {
            return None;
        },
    };
    let (fee, p2) = match get_u64(buf, p1) {
        Some(x) => x,
        None => {
            return None;
        },
    };
    if tag == 4 {
        return Some(TxWeb3Info::DirectDeposit(ts, fee));
    }
    let (ta, _p3) = match get_i128(buf, p2) {
        Some(x) => x,
        None => {
            return None;
        },
    };
    if tag == 0 {
        Some(TxWeb3Info::Deposit(ts, fee, ta))
    } else if tag == 1 {
        Some(TxWeb3Info::Transfer(ts, fee, ta))
    } else if tag == 2 {
        Some(TxWeb3Info::Withdrawal(ts, fee, ta))
    } else if tag == 3 {
        Some(TxWeb3Info::DepositPermittable(ts, fee, ta))
    } else {
        None
    }
}

/// A metadata record reads back as itself.
pub proof fn lemma_web3_round_trip(t: TxWeb3Info)
    ensures
        rd_web3(enc_web3(t)) == Some(t),
{
    broadcast use crate::helpers::codec::lemma_le64_bytes_len, crate::helpers::codec::lemma_le128_bytes_len;

    let buf = enc_web3(t);
    match t {
        TxWeb3Info::DirectDeposit(ts, fee) => {
            let e1 = enc_u64(ts);
            let e2 = enc_u64(fee);
            let body = e1 + e2;
            assert(buf =~= seq![4u8] + body);
            assert(buf[0] == 4u8);
            assert(buf.subrange(1, 9) =~= e1);
            assert(buf.subrange(9, 17) =~= e2);
            lemma_rd_u64_at(buf, 1, ts);
            lemma_rd_u64_at(buf, 9, fee);
        },
        _ => {
            let (tag, ts, fee, ta): (u8, u64, u64, i128) = match t {
                TxWeb3Info::Deposit(ts, fee, ta) => (0u8, ts, fee, ta),
                TxWeb3Info::Transfer(ts, fee, ta) => (1u8, ts, fee, ta),
                TxWeb3Info::Withdrawal(ts, fee, ta) => (2u8, ts, fee, ta),
                TxWeb3Info::DepositPermittable(ts, fee, ta) => (3u8, ts, fee, ta),
                TxWeb3Info::DirectDeposit(ts, fee) => (4u8, ts, fee, 0),
            };
            let e1 = enc_u64(ts);
            let e2 = enc_u64(fee);
            let e3 = enc_i128(ta);
            assert(buf =~= seq![tag] + (e1 + e2 + e3));
            assert(buf[0] == tag);
            assert(buf.subrange(1, 9) =~= e1);
            assert(buf.subrange(9, 17) =~= e2);
            assert(buf.subrange(17, 33) =~= e3);
            lemma_rd_u64_at(buf, 1, ts);
            lemma_rd_u64_at(buf, 9, fee);
            lemma_rd_i128_at(buf, 17, ta);
        },
    }
}

/// The persistent metadata cache.
pub struct Db {
    db: KeyValueDb,
}

impl Db {
    pub closed spec fn wf(&self) -> bool {
        self.db.wf() && self.db.columns_spec() == 1
    }

    pub closed spec fn rows(&self) -> Map<(u32, Seq<u8>), Seq<u8>> {
        self.db.contents()
    }

    pub fn new() -> (r: Db)
        ensures
            r.wf(),
            r.rows() == crate::helpers::db::empty_contents(),
    {
        Db { db: KeyValueDb::new(CacheDbCloumn::count()) }
    }

    /// Persists one record under its hash.
    pub fn save_web3(&mut self, tx_hash: &str, info: &TxWeb3Info) -> (r: Result<(), CloudError>)
        requires
            old(self).wf(),
        ensures
            final(self).wf(),
            r is Ok,
            final(self).rows() == old(self).rows().insert(
                (0u32, crate::cloud::db::str_key(tx_hash@)),
                enc_web3(*info),
            ),
    {
        let key = tx_hash.as_bytes_vec();
        let value = encode_web3(info);
        let res = self.db.save_raw(0, &key, &value);
        proof {
            assert(res is Ok);
        }
        Ok(())
    }

    /// The cached record for a hash, if a readable one is stored; like the
    /// write-behind cache it backs, a miss or an unreadable row is simply
    /// a miss.
    pub fn get_web3(&self, tx_hash: &str) -> (r: Option<TxWeb3Info>)
        requires
            self.wf(),
        ensures
            !self.rows().contains_key((0u32, crate::cloud::db::str_key(tx_hash@))) ==> r is None,
            self.rows().contains_key((0u32, crate::cloud::db::str_key(tx_hash@))) ==> r == rd_web3(
                self.rows()[(0u32, crate::cloud::db::str_key(tx_hash@))],
            ),
    {
        let key = tx_hash.as_bytes_vec();
        match self.db.get_raw(0, &key) {
            Ok(Some(value)) => decode_web3(&value),
            Ok(None) => None,
            Err(_) => {
                proof {
                    assert(false);
                }
                None
            },
        }
    }
}

} // verus!
