//! Chain metadata for pool transactions: classification, timestamp, fee and
//! token amount, as read from one transaction's calldata.
//!
//! Fetching a transaction and its block from the chain is I/O and lives
//! outside the library; this module holds the classification itself and the
//! shape of the cached record. Once written, a record never changes: the
//! chain value is stable below the confirmation horizon.

use vstd::prelude::*;

use crate::account::crypto::{be_nat, be_u64_at};
use crate::account::web3::Web3TxType;
use crate::errors::CloudError;

verus! {

/// Cached metadata of one chain transaction. Every variant carries the block
/// timestamp first; the transact kinds add the protocol fee and the signed
/// token amount, a direct deposit only its fee.
#[derive(Clone, Debug, PartialEq, Eq)]
pub enum TxWeb3Info {
    Deposit(u64, u64, i128),
    Transfer(u64, u64, i128),
    Withdrawal(u64, u64, i128),
    DepositPermittable(u64, u64, i128),
    DirectDeposit(u64, u64),
}

/// What the library reads out of one transaction's parsed calldata.
#[derive(Clone, Debug, PartialEq, Eq)]
pub enum PoolCalldata {
    /// An ordinary pool operation with its kind, protocol fee and signed
    /// token amount.
    Transact(Web3TxType, u64, i128),
    /// A batch of delegated deposits appended to the pool.
    AppendDirectDeposit,
    /// Calldata this service does not know.
    Unknown,
}

/// Which classified record one transact kind yields; the direct-deposit
/// kind never appears in transact calldata.
pub open spec fn classified_transact(
    kind: Web3TxType,
    timestamp: u64,
    fee: u64,
    token_amount: i128,
) -> Option<TxWeb3Info> {
    match kind {
        Web3TxType::Deposit => Some(TxWeb3Info::Deposit(timestamp, fee, token_amount)),
        Web3TxType::Transfer => Some(TxWeb3Info::Transfer(timestamp, fee, token_amount)),
        Web3TxType::Withdrawal => Some(TxWeb3Info::Withdrawal(timestamp, fee, token_amount)),
        Web3TxType::DepositPermittable => Some(
            TxWeb3Info::DepositPermittable(timestamp, fee, token_amount),
        ),
        Web3TxType::DirectDeposit => None,
    }
}

/// Turns one transaction's parsed calldata into the metadata record. The
/// direct-deposit fee is read from the pool's deposit contract by the caller
/// and only used for the `AppendDirectDeposit` kind; unknown calldata is an
/// internal error.
pub fn classify_web3(calldata: &PoolCalldata, timestamp: u64, dd_fee: u64) -> (r: Result<
    TxWeb3Info,
    CloudError,
>)
    ensures
        forall|kind: Web3TxType, fee: u64, ta: i128|
            *calldata == PoolCalldata::Transact(kind, fee, ta)
                && classified_transact(kind, timestamp, fee, ta) is Some ==> r == Ok::<
                TxWeb3Info,
                CloudError,
            >(classified_transact(kind, timestamp, fee, ta).unwrap()),
        *calldata == PoolCalldata::AppendDirectDeposit ==> r == Ok::<TxWeb3Info, CloudError>(
            TxWeb3Info::DirectDeposit(timestamp, dd_fee),
        ),
        r is Err <==> (*calldata == PoolCalldata::Unknown || (exists|fee: u64, ta: i128|
            *calldata == PoolCalldata::Transact(Web3TxType::DirectDeposit, fee, ta))),
        r is Err ==> (r matches Err(e) && e matches CloudError::InternalError(m) && m@
            == "unknown tx"@),
{
    match calldata {
        PoolCalldata::Transact(Web3TxType::Deposit, fee, token_amount) => Ok(
            TxWeb3Info::Deposit(timestamp, *fee, *token_amount),
        ),
        PoolCalldata::Transact(Web3TxType::Transfer, fee, token_amount) => Ok(
            TxWeb3Info::Transfer(timestamp, *fee, *token_amount),
        ),
        PoolCalldata::Transact(Web3TxType::Withdrawal, fee, token_amount) => Ok(
            TxWeb3Info::Withdrawal(timestamp, *fee, *token_amount),
        ),
        PoolCalldata::Transact(Web3TxType::DepositPermittable, fee, token_amount) => Ok(
            TxWeb3Info::DepositPermittable(timestamp, *fee, *token_amount),
        ),
        PoolCalldata::Transact(Web3TxType::DirectDeposit, _, _) => Err(
            CloudError::InternalError(String::from_str("unknown tx")),
        ),
        PoolCalldata::AppendDirectDeposit => Ok(TxWeb3Info::DirectDeposit(timestamp, dd_fee)),
        PoolCalldata::Unknown => Err(CloudError::InternalError(String::from_str("unknown tx"))),
    }
}

/// Reads the big-endian value of `b[from..from + 2]`.
pub fn be_u16_at(b: &[u8], from: usize) -> (r: u16)
    requires
        from + 2 <= b@.len(),
    ensures
        (r as nat) == be_nat(b@.subrange(from as int, from as int + 2)),
{
    let hi = b[from];
    let lo = b[from + 1];
    proof {
        reveal_with_fuel(be_nat, 3);
        let s = b@.subrange(from as int, from as int + 2);
        assert(s.drop_last() == b@.subrange(from as int, from as int + 1));
        assert(s.drop_last().drop_last() == b@.subrange(from as int, from as int));
        assert(s.drop_last().last() == b@[from as int]);
        assert(s.last() == b@[from as int + 1]);
    }
    (hi as u16) * 256 + (lo as u16)
}

/// Whether the calldata starts with the given four-byte function selector.
pub open spec fn has_selector(b: Seq<u8>, s0: u8, s1: u8, s2: u8, s3: u8) -> bool {
    b.len() >= 4 && b[0] == s0 && b[1] == s1 && b[2] == s2 && b[3] == s3
}

/// The transaction kind a `transact()` type tag names: 0 deposit,
/// 1 transfer, 2 withdrawal, 3 permittable deposit; anything else is no
/// kind.
pub open spec fn tx_kind_of(t: nat) -> Option<Web3TxType> {
    if t == 0 {
        Some(Web3TxType::Deposit)
    } else if t == 1 {
        Some(Web3TxType::Transfer)
    } else if t == 2 {
        Some(Web3TxType::Withdrawal)
    } else if t == 3 {
        Some(Web3TxType::DepositPermittable)
    } else {
        None
    }
}

/// The two's-complement reading of an eight-byte big-endian value.
pub open spec fn signed_of_be64(n: nat) -> int {
    if n >= 0x8000_0000_0000_0000 {
        n - 0x1_0000_0000_0000_0000
    } else {
        n as int
    }
}

/// Whether `transact()` calldata is well formed: after the fixed fields —
/// selector (4 bytes), nullifier (32), out commitment (32), transfer index
/// (6), energy amount (14), token amount (8), transaction proof (256), root
/// after (32), tree proof (256) — a known two-byte type tag and a two-byte
/// memo size stand at offset 640, and the memo that follows at offset 644
/// holds at least its eight-byte fee field. Trailing bytes (a deposit
/// signature) may follow the memo.
pub open spec fn transact_wf(b: Seq<u8>) -> bool {
    &&& b.len() >= 652
    &&& tx_kind_of(be_nat(b.subrange(640, 642))) is Some
    &&& be_nat(b.subrange(642, 644)) >= 8
    &&& b.len() >= 644 + be_nat(b.subrange(642, 644))
}

/// What one transaction's calldata means to this service. The selectors are
/// the leading four bytes of the Keccak-256 digest of the pool entry points'
/// signatures: `0xaf989083` for `transact()` and `0x1dc4cb33` for
/// `appendDirectDeposits(uint256,uint256[],uint256,uint256[8],uint256[8])`.
/// A `transact()` call yields its kind, the memo's leading eight-byte fee
/// and the signed token amount; anything malformed or foreign is unknown.
pub open spec fn pool_calldata_of(b: Seq<u8>) -> PoolCalldata {
    if has_selector(b, 0xaf, 0x98, 0x90, 0x83) {
        if transact_wf(b) {
            PoolCalldata::Transact(
                tx_kind_of(be_nat(b.subrange(640, 642))).unwrap(),
                be_nat(b.subrange(644, 652)) as u64,
                signed_of_be64(be_nat(b.subrange(88, 96))) as i128,
            )
        } else {
            PoolCalldata::Unknown
        }
    } else if has_selector(b, 0x1d, 0xc4, 0xcb, 0x33) {
        PoolCalldata::AppendDirectDeposit
    } else {
        PoolCalldata::Unknown
    }
}

/// Parses one pool transaction's calldata: dispatch on the selector, then
/// the type tag, memo fee and signed token amount of a `transact()` call.
pub fn parse_pool_calldata(input: &[u8]) -> (r: PoolCalldata)
    ensures
        r == pool_calldata_of(input@),
{
    if input.len() < 4 {
        return PoolCalldata::Unknown;
    }
    let s0 = input[0];
    let s1 = input[1];
    let s2 = input[2];
    let s3 = input[3];
    if s0 == 0xaf && s1 == 0x98 && s2 == 0x90 && s3 == 0x83 {
        if input.len() < 652 {
            return PoolCalldata::Unknown;
        }
        let tag = be_u16_at(input, 640);
        let kind = match tag {
            0u16 => Web3TxType::Deposit,
            1u16 => Web3TxType::Transfer,
            2u16 => Web3TxType::Withdrawal,
            3u16 => Web3TxType::DepositPermittable,
            _ => {
                return PoolCalldata::Unknown;
            },
        };
        let memo_size = be_u16_at(input, 642);
        if memo_size < 8 {
            return PoolCalldata::Unknown;
        }
        if input.len() < 644 + memo_size as usize {
            return PoolCalldata::Unknown;
        }
        let fee = be_u64_at(input, 644);
        let ta_u = be_u64_at(input, 88);
        let token_amount: i128 = if ta_u >= 0x8000_0000_0000_0000 {
            (ta_u as i128) - 0x1_0000_0000_0000_0000i128
        } else {
            ta_u as i128
        };
        proof {
            crate::account::crypto::lemma_be_nat_bound(input@.subrange(644, 652));
            crate::account::crypto::lemma_be_nat_bound(input@.subrange(88, 96));
            assert(crate::account::crypto::pow256(8) == 0x1_0000_0000_0000_0000) by {
                reveal_with_fuel(crate::account::crypto::pow256, 9);
            }
        }
        PoolCalldata::Transact(kind, fee, token_amount)
    } else if s0 == 0x1d && s1 == 0xc4 && s2 == 0xcb && s3 == 0x33 {
        PoolCalldata::AppendDirectDeposit
    } else {
        PoolCalldata::Unknown
    }
}

} // verus!
