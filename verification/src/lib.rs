//! Custodial wallet engine for a shielded-pool payments network.
//!
//! The crate holds the verified core of the service: the per-account
//! transfer planner, the memo parser, history classification, the relayer
//! record cache, the durable transfer pipeline's state machines, and the
//! typed key-value store that backs them.

use vstd::prelude::*;

pub mod account;
pub mod cloud;
pub mod config;
pub mod errors;
pub mod helpers;
pub mod relayer;
pub mod types;
pub mod version;
pub mod web3;

verus! {

/// Number of tree leaves contributed by one pool transaction: the protocol
/// writes one account leaf and `OUT` note leaves per shielded transaction.
pub const OUT_PLUS_ONE: u64 = 128;

/// At most this many usable notes can be spent by one shielded transaction.
pub const NOTES_PER_TX: usize = 3;

/// A 256-bit field value, kept as the two halves of its big-endian byte
/// form. The library never computes with these; it carries them between the
/// wallet-crypto layer, the store and the prover, and compares them for
/// equality.
#[derive(Clone, Copy, Debug, PartialEq, Eq, Structural)]
pub struct Fr256 {
    /// The first 16 bytes of the big-endian form.
    pub hi: u128,
    /// The last 16 bytes of the big-endian form.
    pub lo: u128,
}

impl Fr256 {
    /// The all-zero field value.
    pub fn zero() -> (r: Fr256)
        ensures
            r.hi == 0 && r.lo == 0,
    {
        Fr256 { hi: 0, lo: 0 }
    }
}

} // verus!
