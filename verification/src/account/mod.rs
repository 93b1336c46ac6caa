//! The per-account engine: keys and decryption at the crypto boundary, the
//! memo parser, the transfer planner, and history classification.

pub mod crypto;
pub mod db;
pub mod engine;
pub mod history;
pub mod planner;
pub mod tx_parser;
pub mod types;
pub mod web3;
