//! The user-facing summary of one account.

use vstd::prelude::*;

verus! {

/// What `GET /account` reports: identity, spendable balance, the largest
/// amount a transfer can currently move, and a fresh shielded address.
#[derive(Clone, Debug, PartialEq, Eq)]
pub struct AccountInfo {
    pub id: String,
    pub description: String,
    pub balance: u64,
    pub max_transfer_amount: u64,
    pub address: String,
}

} // verus!
