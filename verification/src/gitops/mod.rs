//! GitOps: which repositories to update, how manifests are rewritten, and
//! the order of the git steps.

pub mod yaml;
pub mod edit;
pub mod run;
pub mod manifest;

use vstd::prelude::*;
use crate::models::{GitopsConfig, Settings};

verus! {

/// The GitOps repositories of `settings`, or why there are none.
pub open spec fn gitops_section(settings: Settings) -> Result<Seq<GitopsConfig>, Seq<char>> {
    match settings.gitops {
        Some(g) => Ok(g@),
        None => Err("No Gitops Config Found"@),
    }
}

/// Takes the GitOps repositories out of the loaded settings.
pub fn load_settings(settings: Settings) -> (r: Result<Vec<GitopsConfig>, String>)
    ensures
        match r {
            Ok(g) => gitops_section(settings) == Ok::<Seq<GitopsConfig>, Seq<char>>(g@),
            Err(e) => gitops_section(settings) == Err::<Seq<GitopsConfig>, Seq<char>>(e@),
        },
{
    match settings.gitops {
        Some(g) => Ok(g),
        None => Err(String::from_str("No Gitops Config Found")),
    }
}

} // verus!
