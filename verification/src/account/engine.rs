//! The account-level operations that compose the crypto boundary: key
//! export, fresh address generation, and the user-facing summary.

use vstd::prelude::*;

use crate::account::crypto::{
    address_of, be_u128_range, derive_note_p_d, derived_p_d, format_shielded_address,
    random_diversifier_bytes, reduced_sk_bytes, reduced_sk_of,
};
use crate::account::types::AccountInfo;
use crate::helpers::hex::{hex_encode, hex_of};

verus! {

/// The exported form of an account key: the reduced scalar, in hex. A
/// seed is at most 32 bytes, as the scalar reading demands.
pub fn export_key_hex(seed: &Vec<u8>) -> (r: String)
    requires
        seed@.len() <= 32,
    ensures
        r@ == hex_of(reduced_sk_of(seed@)),
{
    let sk = reduced_sk_bytes(seed);
    hex_encode(&sk)
}

/// Derives a fresh shielded address for the account: a random
/// diversifier, its receiver key part under the account's viewing key,
/// and the address formatting. The result is never empty.
pub fn generate_address(eta: &crate::Fr256, pool_id: Option<u32>) -> (r: String)
    ensures
        exists|d: u128| r@ == #[trigger] address_of(d, derived_p_d(d, *eta), pool_id),
        r@.len() > 0,
{
    let bytes = random_diversifier_bytes();
    let d = be_u128_range(bytes.as_slice(), 0, 10);
    proof {
        crate::account::crypto::lemma_be_nat_bound(bytes@.subrange(0, 10));
        reveal_with_fuel(crate::account::crypto::pow256, 11);
        assert(crate::account::crypto::pow256(10) == 0x1_0000_0000_0000_0000_0000);
    }
    let p_d = derive_note_p_d(d, eta);
    let addr = format_shielded_address(d, &p_d, pool_id);
    proof {
        assert(addr@ == address_of(d, derived_p_d(d, *eta), pool_id));
    }
    addr
}

/// Assembles the user-facing account summary.
pub fn account_summary(
    id: &str,
    description: &str,
    balance: u64,
    max_transfer_amount: u64,
    address: String,
) -> (r: AccountInfo)
    ensures
        r.id@ == id@,
        r.description@ == description@,
        r.balance == balance,
        r.max_transfer_amount == max_transfer_amount,
        r.address == address,
{
    AccountInfo {
        id: String::from_str(id),
        description: String::from_str(description),
        balance,
        max_transfer_amount,
        address,
    }
}

} // verus!
