//! Verified core of SlackWatch: parsing of rescan delays, ntfy batch
//! notification planning, GitOps image retargeting and registry paging.

pub mod models;
pub mod text;
pub mod notifications;
pub mod gitops;
pub mod repocheck;
pub mod api;
