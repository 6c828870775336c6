//! Decisions of a source-control backend, with their proofs.
//!
//! The heart of the crate is the engine that keeps a small repository and a
//! large repository in step: for each movement of a bookmark in the small
//! repository it decides which commits are propagated, which of them are
//! rebased onto the target bookmark and which are rewritten as they are,
//! whether a merge may be propagated at all, and what becomes of the target
//! bookmark and of the mapping from source commits to target commits.
//!
//! The engine does no work on the repositories. Each function takes plain
//! values, which the caller has read or produced, and answers with the next
//! thing to do or with the result. The mapping, the bookmarks and the
//! checkpoint are kept in memory as the caller hands them over.
//!
//! - [`commit_sync_config_utils`]: the sync configuration of a repository pair
//! - [`merge`]: admissibility of merges
//! - [`synced_commit_mapping`], [`commit_syncer`]: the outcome of each commit
//! - [`ancestry`]: outcomes leave no gaps in the history
//! - [`sync`]: propagation of one bookmark movement
//! - [`bookmarks`]: transactions on the bookmarks of the target repository
//! - [`tail`], [`validation`]: the checkpoint of a tailer, and the audit of
//!   what a sync left behind
//!
//! Beside the engine stand smaller parts of the same backend: entries of
//! manifests ([`manifest`]), the choice of a decoder for a blob
//! ([`blobstore_fetch`]), what a checkout reports and decides ([`checkout`],
//! [`edenfs`]), errors ([`errors`]), and the values of requests, arguments and
//! configuration ([`complete_tree`], [`cli`], [`cloud_config`]).

pub mod ancestry;
pub mod blobstore_fetch;
pub mod bookmarks;
pub mod checkout;
pub mod cli;
pub mod cloud_config;
pub mod commit_sync_config_utils;
pub mod commit_syncer;
pub mod complete_tree;
pub mod edenfs;
pub mod errors;
pub mod manifest;
pub mod merge;
pub mod sync;
pub mod synced_commit_mapping;
pub mod tail;
pub mod types;
pub mod validation;
