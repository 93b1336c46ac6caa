//! Chain metadata: classification of pool transactions and its persistent
//! per-hash cache.

pub mod cached;
pub mod db;
