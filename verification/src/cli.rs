//! The arguments of the commands of the forward syncer.

use vstd::prelude::*;

verus! {

/// Sync a commit and all of its unsynced ancestors if the given commit has
/// at least one synced ancestor.
#[derive(Debug)]
pub struct OnceCommandArgs {
    pub target_bookmark: Option<String>,
    pub commit: String,
}

/// Start a live sync between repositories, so that commits from the small
/// repository are synced to the large one as they arrive.
#[derive(Debug, Clone)]
pub struct TailCommandArgs {
    pub sleep_secs: u64,
    pub catch_up_once: bool,
    pub backsync_pressure_repo_ids: Vec<i32>,
    pub hg_sync_backpressure: bool,
    pub derived_data_types: Vec<String>,
    pub bookmark_regex: Option<String>,
}

} // verus!
