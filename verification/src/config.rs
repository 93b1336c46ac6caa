//! The service configuration, as plain values. Reading it from files or
//! the environment happens outside the library.

use vstd::prelude::*;

verus! {

/// Retry and queue timing of one worker.
#[derive(Clone, Debug, PartialEq, Eq)]
pub struct WorkerConfig {
    pub max_attempts: u32,
    pub queue_delay_sec: u32,
    pub queue_hidden_sec: u32,
}

/// Build identification reported by the version endpoint.
#[derive(Clone, Debug, PartialEq, Eq)]
pub struct VersionInfo {
    pub ref_name: Option<String>,
    pub commit_hash: Option<String>,
}

/// The whole service configuration.
#[derive(Clone, Debug, PartialEq, Eq)]
pub struct Config {
    pub host: String,
    pub port: u16,
    pub transfer_params_path: String,
    pub db_path: String,
    pub relayer_url: String,
    pub redis_url: String,
    pub admin_token: String,
    pub pool_id: Option<u32>,
    pub version: VersionInfo,
    pub send_worker: WorkerConfig,
    pub status_worker: WorkerConfig,
}

} // verus!
