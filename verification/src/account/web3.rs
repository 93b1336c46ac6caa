//! The five kinds of pool transaction distinguished by their calldata, and a
//! flat record of the chain metadata attached to one of them.

use vstd::prelude::*;

verus! {

/// Classification of one pool transaction's calldata.
#[derive(Clone, Copy, Debug, PartialEq, Eq, Structural)]
pub enum Web3TxType {
    Deposit,
    Transfer,
    Withdrawal,
    DepositPermittable,
    DirectDeposit,
}

/// Chain metadata of one transaction in record form: the kind, the block
/// timestamp, and, where the calldata carries them, the protocol fee and the
/// signed token amount.
#[derive(Clone, Debug, PartialEq, Eq)]
pub struct TxWeb3Info {
    pub tx_type: Web3TxType,
    pub timestamp: u64,
    pub fee: Option<u64>,
    pub token_amount: Option<i128>,
}

} // verus!
