//! Identifiers and records shared by every component of the engine.

use vstd::prelude::*;

verus! {

/// Identifies one repository instance.
#[derive(Clone, Copy, Debug, PartialEq, Eq, Structural, Hash)]
pub struct RepositoryId(pub i32);

/// Content hash of a commit, held as four 64-bit words.
#[derive(Clone, Copy, Debug, PartialEq, Eq, Structural, Hash)]
pub struct ChangesetId {
    pub w0: u64,
    pub w1: u64,
    pub w2: u64,
    pub w3: u64,
}

/// Name of a mutable pointer to a commit. Two keys are the same bookmark
/// when their views are equal.
#[derive(Debug, PartialEq, Eq, Hash)]
pub struct BookmarkKey {
    pub name: String,
}

impl View for BookmarkKey {
    type V = Seq<char>;

    open spec fn view(&self) -> Seq<char> {
        self.name@
    }
}

impl Clone for BookmarkKey {
    fn clone(&self) -> (res: Self)
        ensures
            res == *self,
    {
        BookmarkKey { name: self.name.clone() }
    }
}

impl BookmarkKey {
    /// Whether two keys name the same bookmark.
    pub fn same_as(&self, other: &BookmarkKey) -> (res: bool)
        ensures
            res == (self@ == other@),
    {
        self.name == other.name
    }
}

/// Tag that selects one published, immutable sync configuration.
#[derive(Debug, PartialEq, Eq, Hash)]
pub struct CommitSyncConfigVersion(pub String);

impl View for CommitSyncConfigVersion {
    type V = Seq<char>;

    open spec fn view(&self) -> Seq<char> {
        self.0@
    }
}

impl Clone for CommitSyncConfigVersion {
    fn clone(&self) -> (res: Self)
        ensures
            res == *self,
    {
        CommitSyncConfigVersion(self.0.clone())
    }
}

impl CommitSyncConfigVersion {
    /// Whether two tags select the same configuration.
    pub fn same_as(&self, other: &CommitSyncConfigVersion) -> (res: bool)
        ensures
            res == (self@ == other@),
    {
        self.0 == other.0
    }
}

/// Seconds since the epoch at which a log entry was written.
#[derive(Clone, Copy, Debug, PartialEq, Eq, Structural, Hash)]
pub struct Timestamp(pub i64);

/// Why a bookmark moved.
#[derive(Clone, Copy, Debug, PartialEq, Eq, Structural, Hash)]
pub enum BookmarkUpdateReason {
    Pushrebase,
    Push,
    ManualMove,
    TestMove,
    XRepoSync,
}

/// One record of the ordered, append-only bookmark update log.
/// `to_changeset_id == None` records the deletion of the bookmark.
#[derive(Debug, PartialEq, Eq)]
pub struct BookmarkUpdateLogEntry {
    pub id: u64,
    pub bookmark_name: BookmarkKey,
    pub from_changeset_id: Option<ChangesetId>,
    pub to_changeset_id: Option<ChangesetId>,
    pub reason: BookmarkUpdateReason,
    pub timestamp: Timestamp,
}

/// Which way commits travel between the two repositories of a pair.
#[derive(Clone, Copy, Debug, PartialEq, Eq, Structural, Hash)]
pub enum CommitSyncDirection {
    SmallToLarge,
    LargeToSmall,
}

impl CommitSyncDirection {
    pub open spec fn spec_reverse(self) -> CommitSyncDirection {
        match self {
            CommitSyncDirection::SmallToLarge => CommitSyncDirection::LargeToSmall,
            CommitSyncDirection::LargeToSmall => CommitSyncDirection::SmallToLarge,
        }
    }

    /// The opposite direction.
    #[verifier::when_used_as_spec(spec_reverse)]
    pub fn reverse(self) -> (res: CommitSyncDirection)
        ensures
            res == self.spec_reverse(),
    {
        match self {
            CommitSyncDirection::SmallToLarge => CommitSyncDirection::LargeToSmall,
            CommitSyncDirection::LargeToSmall => CommitSyncDirection::SmallToLarge,
        }
    }
}

/// Terminal classification recorded for a source commit.
#[derive(Debug, PartialEq, Eq)]
pub enum CommitSyncOutcome {
    /// Rewritten and stored as a new target commit under the given version.
    RewrittenAs(ChangesetId, CommitSyncConfigVersion),
    /// The working copy equals that of an already synced target commit.
    EquivalentWorkingCopyAncestor(ChangesetId, CommitSyncConfigVersion),
    /// Intentionally left out of the sync.
    NotSyncCandidate(CommitSyncConfigVersion),
}

/// Mathematical value of a [`CommitSyncOutcome`].
pub enum CommitSyncOutcomeView {
    RewrittenAs(ChangesetId, Seq<char>),
    EquivalentWorkingCopyAncestor(ChangesetId, Seq<char>),
    NotSyncCandidate(Seq<char>),
}

impl CommitSyncOutcomeView {
    /// The target commit that stands for the source commit, if there is one.
    pub open spec fn target(self) -> Option<ChangesetId> {
        match self {
            CommitSyncOutcomeView::RewrittenAs(cs_id, _) => Some(cs_id),
            CommitSyncOutcomeView::EquivalentWorkingCopyAncestor(cs_id, _) => Some(cs_id),
            CommitSyncOutcomeView::NotSyncCandidate(_) => None,
        }
    }

    /// The configuration version the outcome was recorded under.
    pub open spec fn version(self) -> Seq<char> {
        match self {
            CommitSyncOutcomeView::RewrittenAs(_, v) => v,
            CommitSyncOutcomeView::EquivalentWorkingCopyAncestor(_, v) => v,
            CommitSyncOutcomeView::NotSyncCandidate(v) => v,
        }
    }
}

impl View for CommitSyncOutcome {
    type V = CommitSyncOutcomeView;

    open spec fn view(&self) -> CommitSyncOutcomeView {
        match self {
            CommitSyncOutcome::RewrittenAs(cs_id, v) => CommitSyncOutcomeView::RewrittenAs(
                *cs_id,
                v@,
            ),
            CommitSyncOutcome::EquivalentWorkingCopyAncestor(cs_id, v) => {
                CommitSyncOutcomeView::EquivalentWorkingCopyAncestor(*cs_id, v@)
            },
            CommitSyncOutcome::NotSyncCandidate(v) => CommitSyncOutcomeView::NotSyncCandidate(v@),
        }
    }
}

impl Clone for CommitSyncOutcome {
    fn clone(&self) -> (res: Self)
        ensures
            res == *self,
    {
        match self {
            CommitSyncOutcome::RewrittenAs(cs_id, v) => CommitSyncOutcome::RewrittenAs(
                *cs_id,
                v.clone(),
            ),
            CommitSyncOutcome::EquivalentWorkingCopyAncestor(cs_id, v) => {
                CommitSyncOutcome::EquivalentWorkingCopyAncestor(*cs_id, v.clone())
            },
            CommitSyncOutcome::NotSyncCandidate(v) => CommitSyncOutcome::NotSyncCandidate(
                v.clone(),
            ),
        }
    }
}

impl CommitSyncOutcome {
    /// The target commit that stands for the source commit, if there is one.
    pub fn target(&self) -> (res: Option<ChangesetId>)
        ensures
            res == self@.target(),
    {
        match self {
            CommitSyncOutcome::RewrittenAs(cs_id, _) => Some(*cs_id),
            CommitSyncOutcome::EquivalentWorkingCopyAncestor(cs_id, _) => Some(*cs_id),
            CommitSyncOutcome::NotSyncCandidate(_) => None,
        }
    }

    /// The configuration version the outcome was recorded under.
    pub fn version(&self) -> (res: &CommitSyncConfigVersion)
        ensures
            res@ == self@.version(),
    {
        match self {
            CommitSyncOutcome::RewrittenAs(_, v) => v,
            CommitSyncOutcome::EquivalentWorkingCopyAncestor(_, v) => v,
            CommitSyncOutcome::NotSyncCandidate(v) => v,
        }
    }

    /// Whether two outcomes record the same classification, target and version.
    pub fn same_as(&self, other: &CommitSyncOutcome) -> (res: bool)
        ensures
            res == (self@ == other@),
    {
        match (self, other) {
            (CommitSyncOutcome::RewrittenAs(a, v), CommitSyncOutcome::RewrittenAs(b, w)) => {
                *a == *b && v.same_as(w)
            },
            (
                CommitSyncOutcome::EquivalentWorkingCopyAncestor(a, v),
                CommitSyncOutcome::EquivalentWorkingCopyAncestor(b, w),
            ) => *a == *b && v.same_as(w),
            (CommitSyncOutcome::NotSyncCandidate(v), CommitSyncOutcome::NotSyncCandidate(w)) => {
                v.same_as(w)
            },
            _ => false,
        }
    }
}

/// What processing one bookmark movement came to.
#[derive(Debug, PartialEq, Eq)]
pub enum SyncResult {
    /// The target commits that were created, ancestors first.
    Synced(Vec<ChangesetId>),
    /// No ancestor of the moved-to commit has a known outcome yet: a new root
    /// line that is not merged into any tracked bookmark.
    SkippedNoKnownVersion,
}

/// Mathematical value of a [`SyncResult`].
pub enum SyncResultView {
    Synced(Seq<ChangesetId>),
    SkippedNoKnownVersion,
}

impl View for SyncResult {
    type V = SyncResultView;

    open spec fn view(&self) -> SyncResultView {
        match self {
            SyncResult::Synced(cs_ids) => SyncResultView::Synced(cs_ids@),
            SyncResult::SkippedNoKnownVersion => SyncResultView::SkippedNoKnownVersion,
        }
    }
}

/// Why an entry, a commit or a bookmark transaction was refused.
#[derive(Clone, Copy, Debug, PartialEq, Eq, Structural, Hash)]
pub enum SyncError {
    /// The two repositories are not configured as sync partners.
    InvalidConfiguration { source_repo_id: RepositoryId, target_repo_id: RepositoryId },
    /// The synced ancestors carry more than one configuration version.
    AmbiguousSyncVersion,
    /// No ancestor carries a version and the commit is not a root.
    UnknownSyncVersion,
    /// A merge has three or more parents.
    UnsupportedMergeArity,
    /// A merge does not import an unrelated history as a new branch.
    MergeAmbiguousAncestor,
    /// A merge synced directly shares history with a shared bookmark.
    MergeOverlapsSharedBookmark,
    /// A shared bookmark was moved to a commit that does not descend from
    /// its former position.
    NonForwardMoveRejected,
    /// A shared bookmark was deleted in the source repository.
    UnexpectedSharedBookmarkDeletion,
    /// The renamer gave no target name for the moved bookmark.
    EmptyBookmarkRename,
    /// A commit that must have a target commit was recorded as left out.
    UnexpectedNotSyncCandidate,
    /// The moved-to commit has no outcome after all its ancestors were synced.
    UnknownSyncOutcome(ChangesetId),
    /// An ancestor of an imported head produced no target commit.
    AncestorNotSynced(ChangesetId),
    /// An imported head produced no target commit.
    HeadNotSynced,
    /// A second, different outcome was offered for a commit.
    ConflictingOutcome,
    /// The transaction that deletes a bookmark lost its race.
    BookmarkDeleteFailed,
    /// The transaction that moves or creates a bookmark lost its race.
    BookmarkMoveFailed,
}

} // verus!
