//! The validator that audits what the syncer left behind: it goes through
//! log entries once more, and compares the bookmarks of the source
//! repository with those of the target repository.

use vstd::prelude::*;
use crate::bookmarks::Bookmarks;
use crate::commit_syncer::CommitSyncer;
use crate::sync::{outcome_in, remapped_cs_id};
use crate::synced_commit_mapping::MappingKey;
use crate::tail::{may_advance, MutableCounter};
use crate::types::{BookmarkKey, ChangesetId, CommitSyncOutcomeView, RepositoryId};

verus! {

/// Names one commit of one log entry that was validated.
#[derive(Clone, Copy, Debug, PartialEq, Eq, Structural)]
pub struct EntryCommitId {
    /// The id of the log entry.
    pub bookmarks_update_log_entry_id: u64,
    /// Whether the commit is the last one that the entry brought.
    pub last_commit_for_bookmark_move: bool,
}

/// Why a validation run ended.
#[derive(Clone, Copy, Debug, PartialEq, Eq, Structural)]
pub enum ValidationError {
    /// No log entry follows the given id.
    NoEntries { after_id: u64 },
}

/// Moves the checkpoint of a tailing validator after a commit of an entry
/// was validated: the checkpoint goes to the id of the entry once its last
/// commit was validated, and stays for every other commit. Returns whether
/// the checkpoint moved.
pub fn run_in_tailing_mode(counter: &mut MutableCounter, entry_id: EntryCommitId) -> (res: bool)
    ensures
        res == (entry_id.last_commit_for_bookmark_move && may_advance(
            old(counter)@,
            entry_id.bookmarks_update_log_entry_id,
        )),
        res ==> final(counter)@ == Some(entry_id.bookmarks_update_log_entry_id),
        !res ==> final(counter)@ == old(counter)@,
{
    if entry_id.last_commit_for_bookmark_move {
        counter.set_counter(entry_id.bookmarks_update_log_entry_id)
    } else {
        false
    }
}

/// The id behind which the log is read to validate the one entry
/// `entry_id`.
pub fn once_mode_read_after(entry_id: u64) -> (res: u64)
    requires
        entry_id >= 1,
    ensures
        res == entry_id - 1,
{
    entry_id - 1
}

/// Holds a validation of the one entry `entry_id` to the rule that the
/// entry exists: `entries_read` is the number of entries that the log gave.
pub fn run_in_once_mode(entry_id: u64, entries_read: usize) -> (res: Result<(), ValidationError>)
    requires
        entry_id >= 1,
    ensures
        entries_read == 0 ==> res == Err::<(), ValidationError>(
            ValidationError::NoEntries { after_id: (entry_id - 1) as u64 },
        ),
        entries_read > 0 ==> res == Ok::<(), ValidationError>(()),
{
    if entries_read == 0 {
        return Err(ValidationError::NoEntries { after_id: once_mode_read_after(entry_id) });
    }
    Ok(())
}

/// A bookmark of the source repository under its name in the target
/// repository.
#[derive(Debug, PartialEq, Eq)]
pub struct SourceBookmark {
    pub target_bookmark: BookmarkKey,
    pub source_cs_id: ChangesetId,
}

/// How a bookmark of the target repository differs from what the source
/// repository asks for.
#[derive(Debug, PartialEq, Eq)]
pub enum BookmarkDiff {
    /// The bookmark points to another commit than the one that stands for
    /// the commit of the source bookmark.
    InconsistentValue {
        target_bookmark: BookmarkKey,
        target_cs_id: ChangesetId,
        source_cs_id: Option<ChangesetId>,
    },
    /// The bookmark does not exist in the target repository.
    MissingInTarget { target_bookmark: BookmarkKey, source_cs_id: ChangesetId },
    /// The commit of the source bookmark has no target commit.
    NoSyncOutcome { target_bookmark: BookmarkKey },
}

/// Mathematical value of a [`BookmarkDiff`].
pub enum BookmarkDiffView {
    InconsistentValue {
        target_bookmark: Seq<char>,
        target_cs_id: ChangesetId,
        source_cs_id: Option<ChangesetId>,
    },
    MissingInTarget { target_bookmark: Seq<char>, source_cs_id: ChangesetId },
    NoSyncOutcome { target_bookmark: Seq<char> },
}

impl View for BookmarkDiff {
    type V = BookmarkDiffView;

    open spec fn view(&self) -> BookmarkDiffView {
        match self {
            BookmarkDiff::InconsistentValue {
                target_bookmark,
                target_cs_id,
                source_cs_id,
            } => BookmarkDiffView::InconsistentValue {
                target_bookmark: target_bookmark@,
                target_cs_id: *target_cs_id,
                source_cs_id: *source_cs_id,
            },
            BookmarkDiff::MissingInTarget {
                target_bookmark,
                source_cs_id,
            } => BookmarkDiffView::MissingInTarget {
                target_bookmark: target_bookmark@,
                source_cs_id: *source_cs_id,
            },
            BookmarkDiff::NoSyncOutcome { target_bookmark } => BookmarkDiffView::NoSyncOutcome {
                target_bookmark: target_bookmark@,
            },
        }
    }
}

/// How the target repository differs for one source bookmark, if it does.
/// The bookmark is in order where it points to the target commit that
/// stands for the commit of the source bookmark.
pub open spec fn bookmark_diff(
    bookmark: SourceBookmark,
    target_bookmarks: Map<Seq<char>, ChangesetId>,
    mapping: Map<MappingKey, CommitSyncOutcomeView>,
    repo_id: RepositoryId,
) -> Option<BookmarkDiffView> {
    let name = bookmark.target_bookmark@;
    match remapped_cs_id(outcome_in(mapping, repo_id, bookmark.source_cs_id)) {
        Ok(Some(expected)) => {
            if !target_bookmarks.dom().contains(name) {
                Some(
                    BookmarkDiffView::MissingInTarget {
                        target_bookmark: name,
                        source_cs_id: bookmark.source_cs_id,
                    },
                )
            } else if target_bookmarks[name] != expected {
                Some(
                    BookmarkDiffView::InconsistentValue {
                        target_bookmark: name,
                        target_cs_id: target_bookmarks[name],
                        source_cs_id: Some(bookmark.source_cs_id),
                    },
                )
            } else {
                None
            }
        },
        _ => Some(BookmarkDiffView::NoSyncOutcome { target_bookmark: name }),
    }
}

/// The differences for `bookmarks`, in order.
pub open spec fn bookmark_diffs(
    bookmarks: Seq<SourceBookmark>,
    target_bookmarks: Map<Seq<char>, ChangesetId>,
    mapping: Map<MappingKey, CommitSyncOutcomeView>,
    repo_id: RepositoryId,
) -> Seq<BookmarkDiffView>
    decreases bookmarks.len(),
{
    if bookmarks.len() == 0 {
        Seq::empty()
    } else {
        let init = bookmark_diffs(bookmarks.drop_last(), target_bookmarks, mapping, repo_id);
        match bookmark_diff(bookmarks.last(), target_bookmarks, mapping, repo_id) {
            Some(diff) => init.push(diff),
            None => init,
        }
    }
}

/// The views of `diffs`, in order.
pub open spec fn diff_views(diffs: Seq<BookmarkDiff>) -> Seq<BookmarkDiffView> {
    Seq::new(diffs.len(), |i: int| diffs[i]@)
}

/// Compares the bookmarks of the source repository with those of the
/// target repository and reports every source bookmark whose target
/// bookmark is missing, points elsewhere, or cannot be told because the
/// commit has no target commit. Nothing is mended.
pub fn find_bookmark_diff(
    source_bookmarks: &Vec<SourceBookmark>,
    target_bookmarks: &Bookmarks,
    commit_syncer: &CommitSyncer,
) -> (res: Vec<BookmarkDiff>)
    requires
        target_bookmarks.wf(),
        commit_syncer.wf(),
    ensures
        diff_views(res@) == bookmark_diffs(
            source_bookmarks@,
            target_bookmarks@,
            commit_syncer.mapping@,
            commit_syncer.source_repo_id,
        ),
{
    let mut res: Vec<BookmarkDiff> = Vec::new();
    let mut i: usize = 0;
    while i < source_bookmarks.len()
        invariant
            target_bookmarks.wf(),
            commit_syncer.wf(),
            i <= source_bookmarks.len(),
            diff_views(res@) == bookmark_diffs(
                source_bookmarks@.subrange(0, i as int),
                target_bookmarks@,
                commit_syncer.mapping@,
                commit_syncer.source_repo_id,
            ),
        decreases source_bookmarks.len() - i,
    {
        assert(source_bookmarks@.subrange(0, i + 1).drop_last() == source_bookmarks@.subrange(
            0,
            i as int,
        ));
        assert(source_bookmarks@.subrange(0, i + 1).last() == source_bookmarks@[i as int]);
        let bookmark = &source_bookmarks[i];
        let ghost before = res@;
        let maybe_diff = match crate::sync::find_remapped_cs_id(commit_syncer, bookmark.source_cs_id) {
            Ok(Some(expected)) => {
                match target_bookmarks.get(&bookmark.target_bookmark) {
                    None => Some(
                        BookmarkDiff::MissingInTarget {
                            target_bookmark: bookmark.target_bookmark.clone(),
                            source_cs_id: bookmark.source_cs_id,
                        },
                    ),
                    Some(target_cs_id) => {
                        if target_cs_id != expected {
                            Some(
                                BookmarkDiff::InconsistentValue {
                                    target_bookmark: bookmark.target_bookmark.clone(),
                                    target_cs_id,
                                    source_cs_id: Some(bookmark.source_cs_id),
                                },
                            )
                        } else {
                            None
                        }
                    },
                }
            },
            _ => Some(
                BookmarkDiff::NoSyncOutcome { target_bookmark: bookmark.target_bookmark.clone() },
            ),
        };
        match maybe_diff {
            Some(diff) => {
                res.push(diff);
                assert(diff_views(res@) =~= diff_views(before).push(diff@));
            },
            None => {},
        }
        i += 1;
    }
    assert(source_bookmarks@.subrange(0, i as int) == source_bookmarks@);
    res
}

} // verus!
