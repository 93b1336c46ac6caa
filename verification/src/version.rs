//! The version endpoint's body.

use vstd::prelude::*;

use crate::config::VersionInfo;

verus! {

/// What `GET /version` reports.
#[derive(Clone, Debug, PartialEq, Eq)]
pub struct VersionResponse {
    pub ref_name: Option<String>,
    pub commit_hash: Option<String>,
}

impl VersionResponse {
    /// Builds the response from the configured build identification.
    pub fn of(version: &VersionInfo) -> (r: VersionResponse)
        ensures
            r.ref_name == version.ref_name,
            r.commit_hash == version.commit_hash,
    {
        VersionResponse {
            ref_name: match &version.ref_name {
                Some(s) => Some(s.clone()),
                None => None,
            },
            commit_hash: match &version.commit_hash {
                Some(s) => Some(s.clone()),
                None => None,
            },
        }
    }
}

} // verus!
