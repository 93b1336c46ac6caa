//! The relayer-facing side of the library: the shape of a pool record and
//! the persistent cache of mined records.

pub mod cached;
pub mod db;
