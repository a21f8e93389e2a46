//! The records that the logic reads: workloads and the settings file.

use vstd::prelude::*;

verus! {

/// Whether a newer image tag was found for a workload.
#[derive(Clone, Copy, Debug, PartialEq, Eq, Structural)]
pub enum UpdateStatus {
    Available,
    NotAvailable,
}

/// A watched Kubernetes workload and what the last scan found for it.
#[derive(Clone, Debug)]
pub struct Workload {
    pub name: String,
    pub exclude_pattern: Option<String>,
    pub git_ops_repo: Option<String>,
    pub include_pattern: Option<String>,
    pub update_available: UpdateStatus,
    pub git_directory: Option<String>,
    pub image: String,
    pub last_scanned: String,
    pub namespace: String,
    pub current_version: String,
    pub latest_version: String,
    pub scan_exhausted: String,
    pub error: Option<String>,
}

/// One GitOps repository that holds manifests of watched workloads.
#[derive(Clone, Debug)]
pub struct GitopsConfig {
    pub name: String,
    pub repository_url: String,
    pub access_token_env_name: String,
    pub commit_message: String,
    pub commit_name: String,
    pub commit_email: String,
}

/// The ntfy section of the settings.
#[derive(Clone, Debug)]
pub struct Ntfy {
    pub url: String,
    pub topic: String,
    pub reminder: String,
    pub token: String,
    pub callback_url: Option<String>,
    pub callback_token: Option<String>,
    pub auto_rescan_delay: String,
}

/// The notification backends that are configured.
#[derive(Clone, Debug)]
pub struct Notifications {
    pub ntfy: Option<Ntfy>,
}

/// The scheduler section of the settings.
#[derive(Clone, Debug)]
pub struct System {
    pub schedule: String,
    pub data_dir: String,
}

/// The whole settings file.
#[derive(Clone, Debug)]
pub struct Settings {
    pub system: System,
    pub notifications: Option<Notifications>,
    pub gitops: Option<Vec<GitopsConfig>>,
}

/// The view of an optional string.
pub open spec fn opt_str(o: Option<String>) -> Option<Seq<char>> {
    match o {
        Some(s) => Some(s@),
        None => None,
    }
}

} // verus!
