//! Propagation of one bookmark movement: which commits are synced, which of
//! them are rebased onto the target bookmark and which are rewritten as
//! they are, and what becomes of the target bookmark.
//!
//! The work on the repositories themselves is done by the caller. Each
//! function here takes what the caller has learned so far and answers with
//! the next thing to do or with the result, so a caller runs it again
//! whenever it has learned more.

use vstd::prelude::*;
use crate::bookmarks::{
    delete_bookmark,
    delete_transaction,
    move_or_create_bookmark,
    BookmarkTransaction,
    BookmarkTransactionView,
    Bookmarks,
};
use crate::commit_syncer::{remapped, CommitSyncer, MergeParentHint};
use crate::merge::{
    check_if_independent_branch_and_return,
    contains_changeset,
    independent_branch,
    ChangesetParents,
};
use crate::types::{
    BookmarkKey,
    BookmarkUpdateLogEntry,
    ChangesetId,
    CommitSyncConfigVersion,
    CommitSyncOutcome,
    CommitSyncOutcomeView,
    RepositoryId,
    SyncError,
    SyncResult,
    SyncResultView,
};
use crate::synced_commit_mapping::{accepts, put, MappingKey};

verus! {

/// The versions seen among the already synced ancestors of a commit, one
/// item for each such ancestor.
#[derive(Debug, PartialEq, Eq)]
pub struct UnsyncedAncestorsVersions {
    pub versions: Vec<CommitSyncConfigVersion>,
}

/// Whether all items of `versions` are the same version.
pub open spec fn single_version(versions: Seq<CommitSyncConfigVersion>) -> bool {
    forall|i: int| 0 <= i < versions.len() ==> (#[trigger] versions[i])@ == versions[0]@
}

impl UnsyncedAncestorsVersions {
    /// Whether any ancestor has a known outcome.
    pub fn has_ancestor_with_a_known_outcome(&self) -> (res: bool)
        ensures
            res == (self.versions@.len() > 0),
    {
        self.versions.len() > 0
    }

    /// The one version that all synced ancestors carry; `None` where no
    /// ancestor is synced; `AmbiguousSyncVersion` where they carry more than
    /// one.
    pub fn get_only_version(&self) -> (res: Result<Option<CommitSyncConfigVersion>, SyncError>)
        ensures
            self.versions@.len() == 0 ==> res matches Ok(None),
            self.versions@.len() > 0 && single_version(self.versions@) ==> (res matches Ok(Some(v))
                && v == self.versions@[0]),
            !single_version(self.versions@) ==> res == Err::<
                Option<CommitSyncConfigVersion>,
                SyncError,
            >(SyncError::AmbiguousSyncVersion),
    {
        if self.versions.len() == 0 {
            return Ok(None);
        }
        let mut i: usize = 1;
        while i < self.versions.len()
            invariant
                1 <= i <= self.versions.len(),
                forall|j: int| 0 <= j < i ==> (#[trigger] self.versions@[j])@ == self.versions@[0]@,
            decreases self.versions.len() - i,
        {
            if !self.versions[i].same_as(&self.versions[0]) {
                return Err(SyncError::AmbiguousSyncVersion);
            }
            i += 1;
        }
        Ok(Some(self.versions[0].clone()))
    }
}

/// Whether `name` is one of the bookmarks that both repositories share.
pub open spec fn is_common_pushrebase_bookmark(common: Seq<BookmarkKey>, name: Seq<char>) -> bool {
    exists|i: int| 0 <= i < common.len() && (#[trigger] common[i])@ == name
}

/// Whether `bookmark` is one of `common_pushrebase_bookmarks`.
pub fn contains_bookmark(common_pushrebase_bookmarks: &Vec<BookmarkKey>, bookmark: &BookmarkKey) -> (res:
    bool)
    ensures
        res == is_common_pushrebase_bookmark(common_pushrebase_bookmarks@, bookmark@),
{
    let mut i: usize = 0;
    while i < common_pushrebase_bookmarks.len()
        invariant
            i <= common_pushrebase_bookmarks.len(),
            forall|j: int| 0 <= j < i ==> (#[trigger] common_pushrebase_bookmarks@[j])@ != bookmark@,
        decreases common_pushrebase_bookmarks.len() - i,
    {
        if common_pushrebase_bookmarks[i].same_as(bookmark) {
            return true;
        }
        i += 1;
    }
    false
}

/// What a log entry asks for.
#[derive(Debug, PartialEq, Eq)]
pub enum EntryStep {
    /// The bookmark was deleted: the target bookmark is to be deleted, and
    /// no commit is synced.
    DeleteBookmark { source_bookmark: BookmarkKey, target_bookmark: BookmarkKey },
    /// The bookmark moved: the commit it moved to is to be synced with its
    /// ancestors, and the target bookmark follows.
    SyncCommits {
        from_cs_id: Option<ChangesetId>,
        to_cs_id: ChangesetId,
        target_bookmark: BookmarkKey,
    },
}

/// Decides what a log entry of the source repository asks for. `renamed` is
/// what the bookmark renamer gave for the bookmark of the entry. A bookmark
/// without a target name is an error, since it shows a gap in the
/// configuration. An entry without a commit to move to is a deletion.
pub fn sync_single_bookmark_update_log(entry: &BookmarkUpdateLogEntry, renamed: Option<BookmarkKey>) -> (res:
    Result<EntryStep, SyncError>)
    ensures
        match (renamed, entry.to_changeset_id) {
            (None, _) => res == Err::<EntryStep, SyncError>(SyncError::EmptyBookmarkRename),
            (Some(target_bookmark), None) => res == Ok::<EntryStep, SyncError>(
                EntryStep::DeleteBookmark { source_bookmark: entry.bookmark_name, target_bookmark },
            ),
            (Some(target_bookmark), Some(to_cs_id)) => res == Ok::<EntryStep, SyncError>(
                EntryStep::SyncCommits {
                    from_cs_id: entry.from_changeset_id,
                    to_cs_id,
                    target_bookmark,
                },
            ),
        },
{
    let target_bookmark = match renamed {
        Some(target_bookmark) => target_bookmark,
        None => {
            return Err(SyncError::EmptyBookmarkRename);
        },
    };
    match entry.to_changeset_id {
        Some(to_cs_id) => Ok(
            EntryStep::SyncCommits {
                from_cs_id: entry.from_changeset_id,
                to_cs_id,
                target_bookmark,
            },
        ),
        None => Ok(
            EntryStep::DeleteBookmark {
                source_bookmark: entry.bookmark_name.clone(),
                target_bookmark,
            },
        ),
    }
}

/// Plans the deletion of the target bookmark after the source bookmark was
/// deleted, where `current` is the value read for the target bookmark. The
/// deletion of a bookmark that both repositories share is refused. A target
/// bookmark that does not exist needs no transaction.
pub fn plan_bookmark_deletion(
    source_bookmark: &BookmarkKey,
    target_bookmark: &BookmarkKey,
    common_pushrebase_bookmarks: &Vec<BookmarkKey>,
    current: Option<ChangesetId>,
) -> (res: Result<Option<BookmarkTransaction>, SyncError>)
    ensures
        is_common_pushrebase_bookmark(common_pushrebase_bookmarks@, source_bookmark@) ==> res
            == Err::<Option<BookmarkTransaction>, SyncError>(
            SyncError::UnexpectedSharedBookmarkDeletion,
        ),
        !is_common_pushrebase_bookmark(common_pushrebase_bookmarks@, source_bookmark@)
            ==> match current {
            Some(old_cs_id) => res matches Ok(Some(txn)) && txn@ == (
            BookmarkTransactionView::Delete { bookmark: target_bookmark@, old_cs_id }),
            None => res matches Ok(None),
        },
{
    if contains_bookmark(common_pushrebase_bookmarks, source_bookmark) {
        Err(SyncError::UnexpectedSharedBookmarkDeletion)
    } else {
        Ok(delete_transaction(target_bookmark, current))
    }
}

/// What an entry that deleted a bookmark came to: a deletion that succeeded
/// synced no commit.
pub fn bookmark_deletion_result(deleted: Result<(), SyncError>) -> (res: Result<
    SyncResult,
    SyncError,
>)
    ensures
        match deleted {
            Ok(()) => res matches Ok(SyncResult::Synced(cs_ids)) && cs_ids@.len() == 0,
            Err(error) => res matches Err(e) && e == error,
        },
{
    match deleted {
        Ok(()) => Ok(SyncResult::Synced(Vec::new())),
        Err(error) => Err(error),
    }
}

/// Deletes the target bookmark after the source bookmark was deleted. The
/// deletion of a bookmark that both repositories share is refused, and the
/// bookmarks of the target repository stay as they are. Otherwise the
/// target bookmark is gone afterwards; where it did not exist, nothing
/// changes.
pub fn process_bookmark_deletion(
    target_repo: &mut Bookmarks,
    source_bookmark: &BookmarkKey,
    target_bookmark: &BookmarkKey,
    common_pushrebase_bookmarks: &Vec<BookmarkKey>,
) -> (res: Result<(), SyncError>)
    requires
        old(target_repo).wf(),
    ensures
        final(target_repo).wf(),
        is_common_pushrebase_bookmark(common_pushrebase_bookmarks@, source_bookmark@) ==> {
            &&& res == Err::<(), SyncError>(SyncError::UnexpectedSharedBookmarkDeletion)
            &&& final(target_repo)@ == old(target_repo)@
        },
        !is_common_pushrebase_bookmark(common_pushrebase_bookmarks@, source_bookmark@) ==> {
            &&& res == Ok::<(), SyncError>(())
            &&& final(target_repo)@ == old(target_repo)@.remove(target_bookmark@)
        },
{
    if contains_bookmark(common_pushrebase_bookmarks, source_bookmark) {
        Err(SyncError::UnexpectedSharedBookmarkDeletion)
    } else {
        delete_bookmark(target_repo, target_bookmark)
    }
}

/// Holds a move of a shared bookmark to the rule that such a bookmark only
/// moves forward. `is_ancestor` says whether the commit that the bookmark
/// left is an ancestor of the commit that it moved to.
pub fn check_forward_move(is_ancestor: bool) -> (res: Result<(), SyncError>)
    ensures
        is_ancestor ==> res == Ok::<(), SyncError>(()),
        !is_ancestor ==> res == Err::<(), SyncError>(SyncError::NonForwardMoveRejected),
{
    if !is_ancestor {
        return Err(SyncError::NonForwardMoveRejected);
    }
    Ok(())
}

/// The target commit that an outcome names; an error for an outcome that
/// leaves the commit out of the sync.
pub open spec fn remapped_cs_id(maybe_sync_outcome: Option<CommitSyncOutcomeView>) -> Result<
    Option<ChangesetId>,
    SyncError,
> {
    match maybe_sync_outcome {
        Some(CommitSyncOutcomeView::NotSyncCandidate(_)) => Err(
            SyncError::UnexpectedNotSyncCandidate,
        ),
        Some(outcome) => Ok(outcome.target()),
        None => Ok(None),
    }
}

/// The outcome of a commit in a mapping, if it has one.
pub open spec fn outcome_in(
    mapping: Map<MappingKey, CommitSyncOutcomeView>,
    repo_id: RepositoryId,
    cs_id: ChangesetId,
) -> Option<CommitSyncOutcomeView> {
    if mapping.dom().contains((repo_id, cs_id)) {
        Some(mapping[(repo_id, cs_id)])
    } else {
        None
    }
}

/// The target commit that stands for `orig_cs_id`: `None` where the commit
/// has no outcome yet, an error where it was left out of the sync.
pub fn find_remapped_cs_id(commit_syncer: &CommitSyncer, orig_cs_id: ChangesetId) -> (res: Result<
    Option<ChangesetId>,
    SyncError,
>)
    requires
        commit_syncer.wf(),
    ensures
        res == remapped_cs_id(
            outcome_in(commit_syncer.mapping@, commit_syncer.source_repo_id, orig_cs_id),
        ),
{
    let maybe_sync_outcome = commit_syncer.get_commit_sync_outcome(orig_cs_id);
    match maybe_sync_outcome {
        Some(CommitSyncOutcome::RewrittenAs(cs_id, _)) => Ok(Some(cs_id)),
        Some(CommitSyncOutcome::EquivalentWorkingCopyAncestor(cs_id, _)) => Ok(Some(cs_id)),
        Some(CommitSyncOutcome::NotSyncCandidate(_)) => Err(SyncError::UnexpectedNotSyncCandidate),
        None => Ok(None),
    }
}

/// The target commits, in order, of the commits that produced one.
pub open spec fn produced(synced: Seq<Option<ChangesetId>>) -> Seq<ChangesetId>
    decreases synced.len(),
{
    if synced.len() == 0 {
        Seq::empty()
    } else {
        match synced.last() {
            Some(cs_id) => produced(synced.drop_last()).push(cs_id),
            None => produced(synced.drop_last()),
        }
    }
}

fn collect_produced(synced: &Vec<Option<ChangesetId>>, count: usize) -> (res: Vec<ChangesetId>)
    requires
        count <= synced@.len(),
    ensures
        res@ == produced(synced@.subrange(0, count as int)),
{
    let mut res: Vec<ChangesetId> = Vec::new();
    let mut i: usize = 0;
    while i < count
        invariant
            i <= count <= synced@.len(),
            res@ == produced(synced@.subrange(0, i as int)),
        decreases count - i,
    {
        assert(synced@.subrange(0, i + 1).drop_last() == synced@.subrange(0, i as int));
        assert(synced@.subrange(0, i + 1).last() == synced@[i as int]);
        match synced[i] {
            Some(cs_id) => {
                res.push(cs_id);
            },
            None => {},
        }
        i += 1;
    }
    res
}

fn extend(v: &mut Vec<ChangesetId>, other: &Vec<ChangesetId>)
    ensures
        final(v)@ == old(v)@ + other@,
{
    let mut i: usize = 0;
    while i < other.len()
        invariant
            i <= other.len(),
            v@ == old(v)@ + other@.subrange(0, i as int),
        decreases other.len() - i,
    {
        v.push(other[i]);
        i += 1;
    }
    assert(other@.subrange(0, i as int) == other@);
}

/// The commits that the shared bookmarks of the target repository point
/// to, in the order of `common`. A bookmark that does not exist has none.
pub open spec fn book_values(
    bookmarks: Map<Seq<char>, ChangesetId>,
    common: Seq<BookmarkKey>,
) -> Seq<ChangesetId>
    decreases common.len(),
{
    if common.len() == 0 {
        Seq::empty()
    } else if bookmarks.dom().contains(common.last()@) {
        book_values(bookmarks, common.drop_last()).push(bookmarks[common.last()@])
    } else {
        book_values(bookmarks, common.drop_last())
    }
}

/// Whether a parent was left out of the sync.
pub open spec fn has_parent_left_out(
    mapping: Map<MappingKey, CommitSyncOutcomeView>,
    repo_id: RepositoryId,
    parents: Seq<ChangesetId>,
) -> bool {
    exists|i: int|
        0 <= i < parents.len() && mapping.dom().contains((repo_id, #[trigger] parents[i]))
            && mapping[(repo_id, parents[i])] is NotSyncCandidate
}

/// What is to be done next for a commit that is synced without a rebase.
#[derive(Debug, PartialEq, Eq)]
pub enum DirectSyncStep {
    /// The commit graph of the target repository is to be asked for the
    /// ancestors of `branch_tips` that are no ancestors of `other_branches`,
    /// each loaded with its parents.
    CheckIndependence { branch_tips: Vec<ChangesetId>, other_branches: Vec<ChangesetId> },
    /// The commit is to be handed to the commit syncer with this hint.
    SyncCommit { cs_id: ChangesetId, merge_parent_hint: MergeParentHint },
}

/// Mathematical value of a [`DirectSyncStep`].
pub enum DirectSyncStepView {
    CheckIndependence { branch_tips: Seq<ChangesetId>, other_branches: Seq<ChangesetId> },
    SyncCommit { cs_id: ChangesetId, merge_parent_hint: MergeParentHint },
}

impl View for DirectSyncStep {
    type V = DirectSyncStepView;

    open spec fn view(&self) -> DirectSyncStepView {
        match self {
            DirectSyncStep::CheckIndependence {
                branch_tips,
                other_branches,
            } => DirectSyncStepView::CheckIndependence {
                branch_tips: branch_tips@,
                other_branches: other_branches@,
            },
            DirectSyncStep::SyncCommit { cs_id, merge_parent_hint } => DirectSyncStepView::SyncCommit {
                cs_id: *cs_id,
                merge_parent_hint: *merge_parent_hint,
            },
        }
    }
}

/// The next step for `cs_id`, synced without a rebase:
/// - a commit that is no merge goes to the commit syncer as it is;
/// - a merge with a parent that was left out of the sync is refused;
/// - a merge whose target-side history is not known yet asks for it;
/// - a merge whose target-side parents share history with a shared bookmark
///   is refused;
/// - any other merge goes to the commit syncer as admissible.
pub open spec fn direct_sync_step(
    mapping: Map<MappingKey, CommitSyncOutcomeView>,
    repo_id: RepositoryId,
    cs_id: ChangesetId,
    parents: Seq<ChangesetId>,
    target_bookmarks: Map<Seq<char>, ChangesetId>,
    common: Seq<BookmarkKey>,
    target_difference: Option<Seq<ChangesetParents>>,
) -> Result<DirectSyncStepView, SyncError> {
    if parents.len() <= 1 {
        Ok(DirectSyncStepView::SyncCommit { cs_id, merge_parent_hint: MergeParentHint::Unchecked })
    } else if has_parent_left_out(mapping, repo_id, parents) {
        Err(SyncError::UnexpectedNotSyncCandidate)
    } else {
        match target_difference {
            None => Ok(
                DirectSyncStepView::CheckIndependence {
                    branch_tips: remapped(mapping, repo_id, parents),
                    other_branches: book_values(target_bookmarks, common),
                },
            ),
            Some(bcss) => {
                if independent_branch(remapped(mapping, repo_id, parents), bcss).is_some() {
                    Ok(
                        DirectSyncStepView::SyncCommit {
                            cs_id,
                            merge_parent_hint: MergeParentHint::Admissible,
                        },
                    )
                } else {
                    Err(SyncError::MergeOverlapsSharedBookmark)
                }
            },
        }
    }
}

fn remap_merge_parents(commit_syncer: &CommitSyncer, parents: &Vec<ChangesetId>) -> (res: Result<
    Vec<ChangesetId>,
    SyncError,
>)
    requires
        commit_syncer.wf(),
    ensures
        has_parent_left_out(commit_syncer.mapping@, commit_syncer.source_repo_id, parents@) ==> res
            == Err::<Vec<ChangesetId>, SyncError>(SyncError::UnexpectedNotSyncCandidate),
        !has_parent_left_out(commit_syncer.mapping@, commit_syncer.source_repo_id, parents@) ==> (
        res matches Ok(v) && v@ == remapped(
            commit_syncer.mapping@,
            commit_syncer.source_repo_id,
            parents@,
        )),
{
    let mut res: Vec<ChangesetId> = Vec::new();
    let mut i: usize = 0;
    while i < parents.len()
        invariant
            commit_syncer.wf(),
            i <= parents.len(),
            res@ == remapped(
                commit_syncer.mapping@,
                commit_syncer.source_repo_id,
                parents@.subrange(0, i as int),
            ),
            forall|j: int|
                0 <= j < i ==> !(commit_syncer.mapping@.dom().contains(
                    (commit_syncer.source_repo_id, #[trigger] parents@[j]),
                ) && commit_syncer.mapping@[(commit_syncer.source_repo_id, parents@[j])]
                    is NotSyncCandidate),
        decreases parents.len() - i,
    {
        assert(parents@.subrange(0, i + 1).drop_last() == parents@.subrange(0, i as int));
        assert(parents@.subrange(0, i + 1).last() == parents@[i as int]);
        match find_remapped_cs_id(commit_syncer, parents[i]) {
            Ok(Some(cs_id)) => {
                res.push(cs_id);
            },
            Ok(None) => {},
            Err(e) => {
                return Err(e);
            },
        }
        i += 1;
    }
    assert(parents@.subrange(0, i as int) == parents@);
    Ok(res)
}

fn read_book_values(target_bookmarks: &Bookmarks, common_pushrebase_bookmarks: &Vec<BookmarkKey>) -> (res:
    Vec<ChangesetId>)
    requires
        target_bookmarks.wf(),
    ensures
        res@ == book_values(target_bookmarks@, common_pushrebase_bookmarks@),
{
    let mut res: Vec<ChangesetId> = Vec::new();
    let mut i: usize = 0;
    while i < common_pushrebase_bookmarks.len()
        invariant
            target_bookmarks.wf(),
            i <= common_pushrebase_bookmarks.len(),
            res@ == book_values(
                target_bookmarks@,
                common_pushrebase_bookmarks@.subrange(0, i as int),
            ),
        decreases common_pushrebase_bookmarks.len() - i,
    {
        assert(common_pushrebase_bookmarks@.subrange(0, i + 1).drop_last()
            == common_pushrebase_bookmarks@.subrange(0, i as int));
        assert(common_pushrebase_bookmarks@.subrange(0, i + 1).last()
            == common_pushrebase_bookmarks@[i as int]);
        match target_bookmarks.get(&common_pushrebase_bookmarks[i]) {
            Some(cs_id) => {
                res.push(cs_id);
            },
            None => {},
        }
        i += 1;
    }
    assert(common_pushrebase_bookmarks@.subrange(0, i as int) == common_pushrebase_bookmarks@);
    res
}

/// Decides the next step for a commit that is synced without a rebase.
/// `parents` are the parents of `cs_id` in the source repository. A commit
/// that is no merge goes to the commit syncer. A merge is synced only where
/// the history of its target-side parents shares nothing with the history
/// of the shared bookmarks of the target repository: the first call, with
/// `target_difference` empty, asks for that history; the second call, with
/// the answer, refuses the merge or hands it on as admissible.
pub fn sync_commit_without_pushrebase(
    commit_syncer: &CommitSyncer,
    cs_id: ChangesetId,
    parents: &Vec<ChangesetId>,
    target_bookmarks: &Bookmarks,
    common_pushrebase_bookmarks: &Vec<BookmarkKey>,
    target_difference: &Option<Vec<ChangesetParents>>,
) -> (res: Result<DirectSyncStep, SyncError>)
    requires
        commit_syncer.wf(),
        target_bookmarks.wf(),
    ensures
        match direct_sync_step(
            commit_syncer.mapping@,
            commit_syncer.source_repo_id,
            cs_id,
            parents@,
            target_bookmarks@,
            common_pushrebase_bookmarks@,
            match target_difference {
                Some(bcss) => Some(bcss@),
                None => None,
            },
        ) {
            Ok(step) => res matches Ok(s) && s@ == step,
            Err(error) => res matches Err(e) && e == error,
        },
{
    if parents.len() > 1 {
        let branch_tips = remap_merge_parents(commit_syncer, parents)?;
        match target_difference {
            None => {
                let other_branches = read_book_values(target_bookmarks, common_pushrebase_bookmarks);
                Ok(DirectSyncStep::CheckIndependence { branch_tips, other_branches })
            },
            Some(bcss) => {
                let maybe_independent_branch = check_if_independent_branch_and_return(
                    &branch_tips,
                    bcss,
                );
                if maybe_independent_branch.is_none() {
                    return Err(SyncError::MergeOverlapsSharedBookmark);
                }
                Ok(
                    DirectSyncStep::SyncCommit {
                        cs_id,
                        merge_parent_hint: MergeParentHint::Admissible,
                    },
                )
            },
        }
    } else {
        Ok(DirectSyncStep::SyncCommit { cs_id, merge_parent_hint: MergeParentHint::Unchecked })
    }
}


/// The new branch that a merge of `p1` and `p2` was found to bring in.
#[derive(Debug, PartialEq, Eq)]
pub struct NewBranch {
    pub p1: ChangesetId,
    pub p2: ChangesetId,
    pub commits: Vec<ChangesetId>,
}

/// The branch recorded for a merge of `p1` and `p2` at or after position
/// `from`, if one was.
pub open spec fn validated_branch_from(
    new_branches: Seq<NewBranch>,
    p1: ChangesetId,
    p2: ChangesetId,
    from: int,
) -> Option<Seq<ChangesetId>>
    decreases new_branches.len() - from,
{
    if from < 0 || from >= new_branches.len() {
        None
    } else if new_branches[from].p1 == p1 && new_branches[from].p2 == p2 {
        Some(new_branches[from].commits@)
    } else {
        validated_branch_from(new_branches, p1, p2, from + 1)
    }
}

/// What the scan from descendants to ancestors has come to.
pub enum Marking {
    /// These commits are not to be rebased.
    Marked(Seq<ChangesetId>),
    /// The merge of these two parents has to be validated first.
    NeedsValidation { p1: ChangesetId, p2: ChangesetId },
    /// The scan met a commit that cannot be synced.
    Failed(SyncError),
}

/// The outcome of scanning the last `scanned` commits of `unsynced`,
/// descendants first. A commit that is marked already is passed over. A
/// merge that is not marks the commits of its new branch: they are synced
/// as they are, and only the merge itself is rebased.
pub open spec fn mark_no_pushrebase(
    unsynced: Seq<ChangesetParents>,
    new_branches: Seq<NewBranch>,
    scanned: nat,
) -> Marking
    decreases scanned,
{
    if scanned == 0 || scanned > unsynced.len() {
        Marking::Marked(Seq::empty())
    } else {
        match mark_no_pushrebase(unsynced, new_branches, (scanned - 1) as nat) {
            Marking::Marked(no_pushrebase) => {
                let commit = unsynced[unsynced.len() - scanned];
                if no_pushrebase.contains(commit.cs_id) {
                    Marking::Marked(no_pushrebase)
                } else if commit.parents@.len() >= 3 {
                    Marking::Failed(SyncError::UnsupportedMergeArity)
                } else if commit.parents@.len() == 2 {
                    match validated_branch_from(
                        new_branches,
                        commit.parents@[0],
                        commit.parents@[1],
                        0,
                    ) {
                        Some(branch) => Marking::Marked(no_pushrebase + branch),
                        None => Marking::NeedsValidation {
                            p1: commit.parents@[0],
                            p2: commit.parents@[1],
                        },
                    }
                } else {
                    Marking::Marked(no_pushrebase)
                }
            },
            other => other,
        }
    }
}

/// A scan that has stopped stays stopped: scanning further commits does not
/// change what it came to.
pub proof fn lemma_marking_stops(
    unsynced: Seq<ChangesetParents>,
    new_branches: Seq<NewBranch>,
    stopped: nat,
    scanned: nat,
)
    requires
        stopped <= scanned <= unsynced.len(),
        !(mark_no_pushrebase(unsynced, new_branches, stopped) is Marked),
    ensures
        mark_no_pushrebase(unsynced, new_branches, scanned) == mark_no_pushrebase(
            unsynced,
            new_branches,
            stopped,
        ),
    decreases scanned,
{
    if scanned > stopped {
        lemma_marking_stops(unsynced, new_branches, stopped, (scanned - 1) as nat);
    }
}

/// A scan only ever adds marks: what an earlier part of the scan marked
/// stays marked when the scan goes on.
pub proof fn lemma_marks_stay(
    unsynced: Seq<ChangesetParents>,
    new_branches: Seq<NewBranch>,
    earlier: nat,
    later: nat,
)
    requires
        earlier <= later <= unsynced.len(),
        mark_no_pushrebase(unsynced, new_branches, later) is Marked,
    ensures
        mark_no_pushrebase(unsynced, new_branches, earlier) is Marked,
        forall|c: ChangesetId|
            mark_no_pushrebase(unsynced, new_branches, earlier)->Marked_0.contains(c)
                ==> #[trigger] mark_no_pushrebase(
                unsynced,
                new_branches,
                later,
            )->Marked_0.contains(c),
    decreases later,
{
    if earlier < later {
        lemma_marks_stay(unsynced, new_branches, earlier, (later - 1) as nat);
        let before = mark_no_pushrebase(unsynced, new_branches, (later - 1) as nat)->Marked_0;
        let after = mark_no_pushrebase(unsynced, new_branches, later)->Marked_0;
        assert forall|c: ChangesetId| before.contains(c) implies after.contains(c) by {
            let k = choose|k: int| 0 <= k < before.len() && before[k] == c;
            if after != before {
                assert(after[k] == c);
            }
        }
    }
}

/// A batch without merges is rebased whole. Where no commit of the batch
/// has two parents or more, nothing is marked, and every commit is rebased
/// onto the target bookmark when its turn comes.
pub proof fn lemma_batch_without_merges_is_rebased(
    unsynced: Seq<ChangesetParents>,
    new_branches: Seq<NewBranch>,
    synced: Seq<Option<ChangesetId>>,
    scanned: nat,
)
    requires
        forall|i: int| 0 <= i < unsynced.len() ==> (#[trigger] unsynced[i]).parents@.len() < 2,
        scanned <= unsynced.len(),
    ensures
        mark_no_pushrebase(unsynced, new_branches, scanned) == Marking::Marked(Seq::empty()),
        scanned == unsynced.len() && synced.len() < unsynced.len() ==> pushrebase_step(
            unsynced,
            new_branches,
            synced,
        ) == Ok::<PushrebaseStepView, SyncError>(
            PushrebaseStepView::Pushrebase(unsynced[synced.len() as int].cs_id),
        ),
    decreases scanned,
{
    if scanned > 0 {
        lemma_batch_without_merges_is_rebased(
            unsynced,
            new_branches,
            synced,
            (scanned - 1) as nat,
        );
        assert(unsynced[unsynced.len() - scanned].parents@.len() < 2);
    }
}

/// The history that the head of a batch merges in is not rebased. Where
/// the last commit of the batch is a merge of two parents that was
/// validated, every commit of its new branch is marked, and so it is synced
/// as it is when its turn comes.
pub proof fn lemma_new_branch_is_not_rebased(
    unsynced: Seq<ChangesetParents>,
    new_branches: Seq<NewBranch>,
    synced: Seq<Option<ChangesetId>>,
)
    requires
        unsynced.len() > 0,
        unsynced.last().parents@.len() == 2,
        mark_no_pushrebase(unsynced, new_branches, unsynced.len()) is Marked,
        synced.len() < unsynced.len(),
    ensures
        ({
            let head = unsynced.last();
            let branch = validated_branch_from(
                new_branches,
                head.parents@[0],
                head.parents@[1],
                0,
            );
            let next = unsynced[synced.len() as int].cs_id;
            &&& branch.is_some()
            &&& branch.unwrap().contains(next) ==> pushrebase_step(unsynced, new_branches, synced)
                == Ok::<PushrebaseStepView, SyncError>(
                PushrebaseStepView::SyncWithoutPushrebase(next),
            )
        }),
{
    lemma_marks_stay(unsynced, new_branches, 1, unsynced.len());
    let first = mark_no_pushrebase(unsynced, new_branches, 1);
    assert(mark_no_pushrebase(unsynced, new_branches, 0) == Marking::Marked(Seq::empty()));
    let head = unsynced[unsynced.len() - 1];
    let branch = validated_branch_from(new_branches, head.parents@[0], head.parents@[1], 0);
    assert(branch.is_some());
    assert(first == Marking::Marked(Seq::<ChangesetId>::empty() + branch.unwrap()));
    let next = unsynced[synced.len() as int].cs_id;
    if branch.unwrap().contains(next) {
        let k = choose|k: int| 0 <= k < branch.unwrap().len() && branch.unwrap()[k] == next;
        assert((Seq::<ChangesetId>::empty() + branch.unwrap())[k] == next);
        assert(first->Marked_0.contains(next));
    }
}

/// What is to be done next for a batch that is synced through a rebase.
#[derive(Debug, PartialEq, Eq)]
pub enum PushrebaseStep {
    /// The merge of these parents is to be validated as one that brings in a
    /// new branch, and the branch is to be added to what is known.
    ValidateMerge { p1: ChangesetId, p2: ChangesetId },
    /// The commit is to be synced as it is.
    SyncWithoutPushrebase(ChangesetId),
    /// The commit is to be rebased onto the target bookmark.
    Pushrebase(ChangesetId),
    /// All is done: these target commits were created, ancestors first.
    Done(Vec<ChangesetId>),
}

/// Mathematical value of a [`PushrebaseStep`].
pub enum PushrebaseStepView {
    ValidateMerge { p1: ChangesetId, p2: ChangesetId },
    SyncWithoutPushrebase(ChangesetId),
    Pushrebase(ChangesetId),
    Done(Seq<ChangesetId>),
}

impl View for PushrebaseStep {
    type V = PushrebaseStepView;

    open spec fn view(&self) -> PushrebaseStepView {
        match self {
            PushrebaseStep::ValidateMerge { p1, p2 } => PushrebaseStepView::ValidateMerge {
                p1: *p1,
                p2: *p2,
            },
            PushrebaseStep::SyncWithoutPushrebase(cs_id) => PushrebaseStepView::SyncWithoutPushrebase(
                *cs_id,
            ),
            PushrebaseStep::Pushrebase(cs_id) => PushrebaseStepView::Pushrebase(*cs_id),
            PushrebaseStep::Done(res) => PushrebaseStepView::Done(res@),
        }
    }
}

/// The next step of a batch that is synced through a rebase. The batch is
/// first scanned from descendants to ancestors to find the commits that are
/// not to be rebased. Then the commits are taken from ancestors to
/// descendants, one for each result in `synced`; the next one is synced as
/// it is where it was marked, and rebased otherwise.
pub open spec fn pushrebase_step(
    unsynced: Seq<ChangesetParents>,
    new_branches: Seq<NewBranch>,
    synced: Seq<Option<ChangesetId>>,
) -> Result<PushrebaseStepView, SyncError> {
    match mark_no_pushrebase(unsynced, new_branches, unsynced.len()) {
        Marking::Failed(error) => Err(error),
        Marking::NeedsValidation { p1, p2 } => Ok(PushrebaseStepView::ValidateMerge { p1, p2 }),
        Marking::Marked(no_pushrebase) => {
            if synced.len() >= unsynced.len() {
                Ok(PushrebaseStepView::Done(produced(synced)))
            } else if no_pushrebase.contains(unsynced[synced.len() as int].cs_id) {
                Ok(PushrebaseStepView::SyncWithoutPushrebase(unsynced[synced.len() as int].cs_id))
            } else {
                Ok(PushrebaseStepView::Pushrebase(unsynced[synced.len() as int].cs_id))
            }
        },
    }
}

fn find_validated_branch<'a>(new_branches: &'a Vec<NewBranch>, p1: ChangesetId, p2: ChangesetId) -> (res:
    Option<&'a Vec<ChangesetId>>)
    ensures
        match validated_branch_from(new_branches@, p1, p2, 0) {
            Some(branch) => res matches Some(v) && v@ == branch,
            None => res.is_none(),
        },
{
    let mut i: usize = 0;
    while i < new_branches.len()
        invariant
            i <= new_branches.len(),
            validated_branch_from(new_branches@, p1, p2, 0) == validated_branch_from(
                new_branches@,
                p1,
                p2,
                i as int,
            ),
        decreases new_branches.len() - i,
    {
        if new_branches[i].p1 == p1 && new_branches[i].p2 == p2 {
            return Some(&new_branches[i].commits);
        }
        i += 1;
    }
    None
}

/// Decides the next step of a batch that is synced through a rebase onto a
/// shared bookmark. `unsynced_ancestors` lists the commits to sync with
/// their parents, ancestors first. `new_branches` holds the merges that
/// were validated so far, `synced` what syncing the first commits of the
/// batch produced so far. Some commits of such a batch are not rebased: a
/// merge brings in the history of a new branch, and that history keeps its
/// shape. Only the merge itself and what follows it are rebased.
pub fn sync_commits_via_pushrebase(
    unsynced_ancestors: &Vec<ChangesetParents>,
    new_branches: &Vec<NewBranch>,
    synced: &Vec<Option<ChangesetId>>,
) -> (res: Result<PushrebaseStep, SyncError>)
    ensures
        match pushrebase_step(unsynced_ancestors@, new_branches@, synced@) {
            Ok(step) => res matches Ok(s) && s@ == step,
            Err(error) => res matches Err(e) && e == error,
        },
{
    // It stores commits that were introduced as part of current bookmark update, but that
    // shouldn't be pushrebased.
    let mut no_pushrebase: Vec<ChangesetId> = Vec::new();
    let len = unsynced_ancestors.len();

    // Iterate in reverse order i.e. descendants before ancestors
    let mut scanned: usize = 0;
    while scanned < len
        invariant
            len == unsynced_ancestors@.len(),
            scanned <= len,
            mark_no_pushrebase(unsynced_ancestors@, new_branches@, scanned as nat)
                == Marking::Marked(no_pushrebase@),
        decreases len - scanned,
    {
        let commit = &unsynced_ancestors[len - scanned - 1];
        scanned += 1;
        if contains_changeset(&no_pushrebase, commit.cs_id) {
            continue ;
        }
        if commit.parents.len() >= 3 {
            proof {
                lemma_marking_stops(unsynced_ancestors@, new_branches@, scanned as nat, len as nat);
            }
            return Err(SyncError::UnsupportedMergeArity);
        }
        if commit.parents.len() == 2 {
            let p1 = commit.parents[0];
            let p2 = commit.parents[1];
            match find_validated_branch(new_branches, p1, p2) {
                Some(branch) => {
                    extend(&mut no_pushrebase, branch);
                },
                None => {
                    proof {
                        lemma_marking_stops(
                            unsynced_ancestors@,
                            new_branches@,
                            scanned as nat,
                            len as nat,
                        );
                    }
                    return Ok(PushrebaseStep::ValidateMerge { p1, p2 });
                },
            }
        }
    }

    if synced.len() >= len {
        let res = collect_produced(synced, synced.len());
        assert(synced@.subrange(0, synced@.len() as int) == synced@);
        return Ok(PushrebaseStep::Done(res));
    }
    let cs_id = unsynced_ancestors[synced.len()].cs_id;
    if contains_changeset(&no_pushrebase, cs_id) {
        Ok(PushrebaseStep::SyncWithoutPushrebase(cs_id))
    } else {
        Ok(PushrebaseStep::Pushrebase(cs_id))
    }
}

/// Records what rebasing `cs_id` onto the target bookmark produced. Where
/// the rebase produced the commit `rebased`, the mapping records it as what
/// `cs_id` was rewritten as, and the target bookmark advances to it. Where
/// the rebase left the commit out, nothing changes. Where the commit has a
/// different outcome already, the record is refused and nothing changes.
pub fn pushrebase_commit(
    commit_syncer: &mut CommitSyncer,
    target_repo: &mut Bookmarks,
    target_bookmark: &BookmarkKey,
    cs_id: ChangesetId,
    version: &CommitSyncConfigVersion,
    rebased: Option<ChangesetId>,
) -> (res: Result<Option<ChangesetId>, SyncError>)
    requires
        old(commit_syncer).wf(),
        old(target_repo).wf(),
    ensures
        final(commit_syncer).wf(),
        final(target_repo).wf(),
        final(commit_syncer).source_repo_id == old(commit_syncer).source_repo_id,
        final(commit_syncer).target_repo_id == old(commit_syncer).target_repo_id,
        match rebased {
            None => {
                &&& res == Ok::<Option<ChangesetId>, SyncError>(None)
                &&& final(commit_syncer).mapping@ == old(commit_syncer).mapping@
                &&& final(target_repo)@ == old(target_repo)@
            },
            Some(new_cs_id) => {
                let key = (old(commit_syncer).source_repo_id, cs_id);
                let outcome = CommitSyncOutcomeView::RewrittenAs(new_cs_id, version@);
                if accepts(old(commit_syncer).mapping@, key, outcome) {
                    &&& res == Ok::<Option<ChangesetId>, SyncError>(Some(new_cs_id))
                    &&& final(commit_syncer).mapping@ == put(
                        old(commit_syncer).mapping@,
                        key,
                        outcome,
                    )
                    &&& final(target_repo)@ == old(target_repo)@.insert(target_bookmark@, new_cs_id)
                } else {
                    &&& res == Err::<Option<ChangesetId>, SyncError>(SyncError::ConflictingOutcome)
                    &&& final(commit_syncer).mapping@ == old(commit_syncer).mapping@
                    &&& final(target_repo)@ == old(target_repo)@
                }
            },
        },
{
    match rebased {
        None => Ok(None),
        Some(new_cs_id) => {
            match commit_syncer.complete_sync_commit(cs_id, version, new_cs_id) {
                Ok(_) => {
                    match move_or_create_bookmark(target_repo, target_bookmark, new_cs_id) {
                        Ok(()) => Ok(Some(new_cs_id)),
                        Err(e) => Err(e),
                    }
                },
                Err(e) => Err(e),
            }
        },
    }
}


/// What the caller has learned so far while it synced a commit and its
/// ancestors.
#[derive(Debug, PartialEq, Eq)]
pub struct SyncProgress {
    /// Whether the commit that the bookmark left is an ancestor of the commit
    /// that it moved to, once the commit graph was asked.
    pub is_forward_move: Option<bool>,
    /// What syncing the first unsynced ancestors produced, in order.
    pub synced: Vec<Option<ChangesetId>>,
    /// Whether the target bookmark was moved.
    pub bookmark_moved: bool,
}

/// What is to be done next for a commit and its ancestors.
#[derive(Debug, PartialEq, Eq)]
pub enum SyncStep {
    /// The commit graph of the source repository is to be asked whether
    /// `from_cs_id` is an ancestor of `to_cs_id`.
    CheckForwardMove { from_cs_id: ChangesetId, to_cs_id: ChangesetId },
    /// The whole batch is to be synced through a rebase onto the target
    /// bookmark, under this version. What that produces is the result.
    ViaPushrebase { version: CommitSyncConfigVersion },
    /// The commit is to be synced as it is, under this version.
    SyncWithoutPushrebase { cs_id: ChangesetId, version: CommitSyncConfigVersion },
    /// The target bookmark is to be created at, or moved to, this commit.
    MoveBookmark { bookmark: BookmarkKey, cs_id: ChangesetId },
    /// All is done.
    Done(SyncResult),
}

/// Mathematical value of a [`SyncStep`].
pub enum SyncStepView {
    CheckForwardMove { from_cs_id: ChangesetId, to_cs_id: ChangesetId },
    ViaPushrebase { version: Seq<char> },
    SyncWithoutPushrebase { cs_id: ChangesetId, version: Seq<char> },
    MoveBookmark { bookmark: Seq<char>, cs_id: ChangesetId },
    Done(SyncResultView),
}

impl View for SyncStep {
    type V = SyncStepView;

    open spec fn view(&self) -> SyncStepView {
        match self {
            SyncStep::CheckForwardMove { from_cs_id, to_cs_id } => SyncStepView::CheckForwardMove {
                from_cs_id: *from_cs_id,
                to_cs_id: *to_cs_id,
            },
            SyncStep::ViaPushrebase { version } => SyncStepView::ViaPushrebase { version: version@ },
            SyncStep::SyncWithoutPushrebase { cs_id, version } => SyncStepView::SyncWithoutPushrebase {
                cs_id: *cs_id,
                version: version@,
            },
            SyncStep::MoveBookmark { bookmark, cs_id } => SyncStepView::MoveBookmark {
                bookmark: bookmark@,
                cs_id: *cs_id,
            },
            SyncStep::Done(result) => SyncStepView::Done(result@),
        }
    }
}

/// Whether the target bookmark is one that both repositories share.
pub open spec fn is_shared(target_bookmark: Option<BookmarkKey>, common: Seq<BookmarkKey>) -> bool {
    match target_bookmark {
        Some(bookmark) => is_common_pushrebase_bookmark(common, bookmark@),
        None => false,
    }
}

/// The next step for the commit `to_cs_id` and its ancestors:
/// - with no synced ancestor, the batch is skipped;
/// - with synced ancestors of more than one version, it is refused;
/// - a move of a shared bookmark is checked to go forward, then the batch is
///   synced through a rebase;
/// - any other batch is synced commit by commit, ancestors first; then the
///   target commit of `to_cs_id` is looked up and the target bookmark, if
///   there is one, is moved to it.
pub open spec fn sync_step(
    from_cs_id: Option<ChangesetId>,
    to_cs_id: ChangesetId,
    target_bookmark: Option<BookmarkKey>,
    common: Seq<BookmarkKey>,
    unsynced: Seq<ChangesetId>,
    versions: Seq<CommitSyncConfigVersion>,
    mapping: Map<MappingKey, CommitSyncOutcomeView>,
    repo_id: RepositoryId,
    progress: SyncProgress,
) -> Result<SyncStepView, SyncError> {
    if versions.len() == 0 {
        Ok(SyncStepView::Done(SyncResultView::SkippedNoKnownVersion))
    } else if !single_version(versions) {
        Err(SyncError::AmbiguousSyncVersion)
    } else if is_shared(target_bookmark, common) {
        match (from_cs_id, progress.is_forward_move) {
            (Some(from), None) => Ok(
                SyncStepView::CheckForwardMove { from_cs_id: from, to_cs_id },
            ),
            (Some(_), Some(false)) => Err(SyncError::NonForwardMoveRejected),
            _ => Ok(SyncStepView::ViaPushrebase { version: versions[0]@ }),
        }
    } else if progress.synced@.len() < unsynced.len() {
        Ok(
            SyncStepView::SyncWithoutPushrebase {
                cs_id: unsynced[progress.synced@.len() as int],
                version: versions[0]@,
            },
        )
    } else {
        match remapped_cs_id(outcome_in(mapping, repo_id, to_cs_id)) {
            Err(error) => Err(error),
            Ok(None) => Err(SyncError::UnknownSyncOutcome(to_cs_id)),
            Ok(Some(remapped_cs_id)) => {
                if target_bookmark.is_some() && !progress.bookmark_moved {
                    Ok(
                        SyncStepView::MoveBookmark {
                            bookmark: target_bookmark.unwrap()@,
                            cs_id: remapped_cs_id,
                        },
                    )
                } else {
                    Ok(SyncStepView::Done(SyncResultView::Synced(produced(progress.synced@))))
                }
            },
        }
    }
}

/// Decides the next step of syncing `to_cs_id` and all its unsynced
/// ancestors. `unsynced_ancestors` and `unsynced_ancestors_versions` are
/// what the ancestor resolver found for `to_cs_id`; `commit_syncer` holds
/// the outcomes recorded so far; `progress` holds what the caller has
/// learned since it began.
pub fn sync_commit_and_ancestors(
    commit_syncer: &CommitSyncer,
    from_cs_id: Option<ChangesetId>,
    to_cs_id: ChangesetId,
    target_bookmark: &Option<BookmarkKey>,
    common_pushrebase_bookmarks: &Vec<BookmarkKey>,
    unsynced_ancestors: &Vec<ChangesetId>,
    unsynced_ancestors_versions: &UnsyncedAncestorsVersions,
    progress: &SyncProgress,
) -> (res: Result<SyncStep, SyncError>)
    requires
        commit_syncer.wf(),
    ensures
        match sync_step(
            from_cs_id,
            to_cs_id,
            *target_bookmark,
            common_pushrebase_bookmarks@,
            unsynced_ancestors@,
            unsynced_ancestors_versions.versions@,
            commit_syncer.mapping@,
            commit_syncer.source_repo_id,
            *progress,
        ) {
            Ok(step) => res matches Ok(s) && s@ == step,
            Err(error) => res matches Err(e) && e == error,
        },
{
    let version = match unsynced_ancestors_versions.get_only_version()? {
        Some(version) => version,
        None => {
            return Ok(SyncStep::Done(SyncResult::SkippedNoKnownVersion));
        },
    };

    if let Some(target_bookmark) = target_bookmark {
        if contains_bookmark(common_pushrebase_bookmarks, target_bookmark) {
            // This is a commit that was introduced by common pushrebase bookmark (e.g. "master").
            // Use pushrebase to sync a commit.
            if let Some(from_cs_id) = from_cs_id {
                match progress.is_forward_move {
                    None => {
                        return Ok(SyncStep::CheckForwardMove { from_cs_id, to_cs_id });
                    },
                    Some(is_ancestor) => {
                        check_forward_move(is_ancestor)?;
                    },
                }
            }
            return Ok(SyncStep::ViaPushrebase { version });
        }
    }
    // Use a normal sync since a bookmark is not a common pushrebase bookmark

    if progress.synced.len() < unsynced_ancestors.len() {
        return Ok(
            SyncStep::SyncWithoutPushrebase {
                cs_id: unsynced_ancestors[progress.synced.len()],
                version,
            },
        );
    }
    let maybe_remapped_cs_id = find_remapped_cs_id(commit_syncer, to_cs_id)?;
    let remapped_cs_id = match maybe_remapped_cs_id {
        Some(remapped_cs_id) => remapped_cs_id,
        None => {
            return Err(SyncError::UnknownSyncOutcome(to_cs_id));
        },
    };
    if let Some(target_bookmark) = target_bookmark {
        if !progress.bookmark_moved {
            return Ok(
                SyncStep::MoveBookmark { bookmark: target_bookmark.clone(), cs_id: remapped_cs_id },
            );
        }
    }
    let res = collect_produced(&progress.synced, progress.synced.len());
    assert(progress.synced@.subrange(0, progress.synced@.len() as int) == progress.synced@);
    Ok(SyncStep::Done(SyncResult::Synced(res)))
}

/// A shared bookmark only moves forward. Where the target bookmark is
/// shared and the commit that the bookmark left is no ancestor of the
/// commit that it moved to, no step ever asks to sync a commit or to move
/// the bookmark: the batch is refused, unless it is skipped because no
/// ancestor is synced yet.
pub proof fn lemma_shared_bookmark_moves_forward_only(
    from_cs_id: ChangesetId,
    to_cs_id: ChangesetId,
    target_bookmark: BookmarkKey,
    common: Seq<BookmarkKey>,
    unsynced: Seq<ChangesetId>,
    versions: Seq<CommitSyncConfigVersion>,
    mapping: Map<MappingKey, CommitSyncOutcomeView>,
    repo_id: RepositoryId,
    progress: SyncProgress,
)
    requires
        is_common_pushrebase_bookmark(common, target_bookmark@),
        progress.is_forward_move == Some(false),
    ensures
        ({
            let step = sync_step(
                Some(from_cs_id),
                to_cs_id,
                Some(target_bookmark),
                common,
                unsynced,
                versions,
                mapping,
                repo_id,
                progress,
            );
            &&& versions.len() == 0 ==> step == Ok::<SyncStepView, SyncError>(
                SyncStepView::Done(SyncResultView::SkippedNoKnownVersion),
            )
            &&& versions.len() > 0 ==> step is Err
            &&& versions.len() > 0 && single_version(versions) ==> step == Err::<
                SyncStepView,
                SyncError,
            >(SyncError::NonForwardMoveRejected)
        }),
{
}

/// A shared bookmark is never moved by a plain bookmark move: for a target
/// bookmark that both repositories share, the steps never ask to create or
/// move the bookmark, nor to sync a commit without a rebase. Such a
/// bookmark advances only through rebases, and only after the move was
/// found to go forward.
pub proof fn lemma_shared_bookmark_advances_by_rebase(
    from_cs_id: Option<ChangesetId>,
    to_cs_id: ChangesetId,
    target_bookmark: BookmarkKey,
    common: Seq<BookmarkKey>,
    unsynced: Seq<ChangesetId>,
    versions: Seq<CommitSyncConfigVersion>,
    mapping: Map<MappingKey, CommitSyncOutcomeView>,
    repo_id: RepositoryId,
    progress: SyncProgress,
)
    requires
        is_common_pushrebase_bookmark(common, target_bookmark@),
    ensures
        ({
            let step = sync_step(
                from_cs_id,
                to_cs_id,
                Some(target_bookmark),
                common,
                unsynced,
                versions,
                mapping,
                repo_id,
                progress,
            );
            &&& !(step matches Ok(SyncStepView::MoveBookmark { .. }))
            &&& !(step matches Ok(SyncStepView::SyncWithoutPushrebase { .. }))
            &&& step matches Ok(SyncStepView::ViaPushrebase { .. }) ==> from_cs_id.is_none()
                || progress.is_forward_move == Some(true)
        }),
{
}

/// What is to be done next for an initial import.
#[derive(Debug, PartialEq, Eq)]
pub enum InitialImportStep {
    /// The commit is to be synced under the version of the import.
    SyncCommit(ChangesetId),
    /// All is done: these target commits stand for the ancestors and,
    /// last, for the head.
    Done(Vec<ChangesetId>),
}

/// Mathematical value of an [`InitialImportStep`].
pub enum InitialImportStepView {
    SyncCommit(ChangesetId),
    Done(Seq<ChangesetId>),
}

impl View for InitialImportStep {
    type V = InitialImportStepView;

    open spec fn view(&self) -> InitialImportStepView {
        match self {
            InitialImportStep::SyncCommit(cs_id) => InitialImportStepView::SyncCommit(*cs_id),
            InitialImportStep::Done(res) => InitialImportStepView::Done(res@),
        }
    }
}

/// The next step of an import of `commits`, whose last commit is the head,
/// from position `from` on, where `synced` holds what syncing the first
/// commits produced. A commit that produced no target commit ends the
/// import with an error.
pub open spec fn import_step_from(
    commits: Seq<ChangesetId>,
    synced: Seq<Option<ChangesetId>>,
    from: int,
) -> Result<InitialImportStepView, SyncError>
    decreases commits.len() - from,
{
    if from < 0 || from >= commits.len() {
        Ok(InitialImportStepView::Done(produced(synced.subrange(0, commits.len() as int))))
    } else if from >= synced.len() {
        Ok(InitialImportStepView::SyncCommit(commits[from]))
    } else if synced[from].is_none() {
        if from == commits.len() - 1 {
            Err(SyncError::HeadNotSynced)
        } else {
            Err(SyncError::AncestorNotSynced(commits[from]))
        }
    } else {
        import_step_from(commits, synced, from + 1)
    }
}

/// Decides the next step of the initial import of a small repository into
/// a large one: the head `cs_id` is synced after all its unsynced ancestors,
/// ancestors first. `synced` holds what syncing the first of these commits
/// produced so far. Every one of them has to produce a target commit.
pub fn sync_commits_for_initial_import(
    unsynced_ancestors: &Vec<ChangesetId>,
    cs_id: ChangesetId,
    synced: &Vec<Option<ChangesetId>>,
) -> (res: Result<InitialImportStep, SyncError>)
    requires
        unsynced_ancestors@.len() < usize::MAX,
    ensures
        match import_step_from(unsynced_ancestors@.push(cs_id), synced@, 0) {
            Ok(step) => res matches Ok(s) && s@ == step,
            Err(error) => res matches Err(e) && e == error,
        },
{
    let ghost commits = unsynced_ancestors@.push(cs_id);
    let total = unsynced_ancestors.len() + 1;
    let mut i: usize = 0;
    while i < total
        invariant
            commits == unsynced_ancestors@.push(cs_id),
            total == commits.len(),
            i <= total,
            i <= synced@.len(),
            import_step_from(commits, synced@, 0) == import_step_from(commits, synced@, i as int),
        decreases total - i,
    {
        let commit = if i < unsynced_ancestors.len() {
            unsynced_ancestors[i]
        } else {
            cs_id
        };
        assert(commit == commits[i as int]);
        if i >= synced.len() {
            return Ok(InitialImportStep::SyncCommit(commit));
        }
        if synced[i].is_none() {
            if i == total - 1 {
                return Err(SyncError::HeadNotSynced);
            } else {
                return Err(SyncError::AncestorNotSynced(commit));
            }
        }
        i += 1;
    }
    Ok(InitialImportStep::Done(collect_produced(synced, total)))
}

} // verus!
