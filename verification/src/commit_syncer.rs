//! The per-commit state machine. A source commit is unknown until it is
//! synced; once synced it has one terminal outcome, recorded in the mapping.
//! Rewriting a commit is work done elsewhere: `sync_commit` decides whether
//! and on which target parents a commit is to be rewritten, and
//! `complete_sync_commit` records what the rewrite produced.

use vstd::prelude::*;
use crate::ancestry::{gap_free, has_outcome, is_parent, CommitGraph};
use crate::ancestry::lemma_record_keeps_gap_free;
use crate::synced_commit_mapping::{accepts, put, MappingKey, SyncedCommitMapping};
use crate::types::{
    ChangesetId,
    CommitSyncConfigVersion,
    CommitSyncOutcome,
    CommitSyncOutcomeView,
    RepositoryId,
    SyncError,
};

verus! {

/// What is to be done for a commit.
#[derive(Debug, PartialEq, Eq)]
pub enum SyncCommitStep {
    /// The commit has an outcome already; nothing is to be done.
    AlreadySynced(CommitSyncOutcome),
    /// The commit is to be rewritten on top of these target commits.
    Rewrite { remapped_parents: Vec<ChangesetId> },
}

/// Mathematical value of a [`SyncCommitStep`].
pub enum SyncCommitStepView {
    AlreadySynced(CommitSyncOutcomeView),
    Rewrite { remapped_parents: Seq<ChangesetId> },
}

impl View for SyncCommitStep {
    type V = SyncCommitStepView;

    open spec fn view(&self) -> SyncCommitStepView {
        match self {
            SyncCommitStep::AlreadySynced(outcome) => SyncCommitStepView::AlreadySynced(outcome@),
            SyncCommitStep::Rewrite { remapped_parents } => SyncCommitStepView::Rewrite {
                remapped_parents: remapped_parents@,
            },
        }
    }
}

/// The target commits that stand for `parents`, in order. A parent without
/// an outcome, or with one that names no target commit, has none.
pub open spec fn remapped(
    mapping: Map<MappingKey, CommitSyncOutcomeView>,
    repo_id: RepositoryId,
    parents: Seq<ChangesetId>,
) -> Seq<ChangesetId>
    decreases parents.len(),
{
    if parents.len() == 0 {
        Seq::empty()
    } else {
        let init = remapped(mapping, repo_id, parents.drop_last());
        let key = (repo_id, parents.last());
        if mapping.dom().contains(key) && mapping[key].target().is_some() {
            init.push(mapping[key].target().unwrap())
        } else {
            init
        }
    }
}

/// What the caller knows of the parents of a commit before it is synced.
#[derive(Clone, Copy, Debug, PartialEq, Eq, Structural, Hash)]
pub enum MergeParentHint {
    /// Nothing was checked.
    Unchecked,
    /// The commit is a merge that was found admissible: one parent brings a
    /// history that shares nothing with history that must not be rewritten.
    Admissible,
}

/// What is to be done for `changeset`, whose parents are `parents`:
/// - with an outcome in the mapping, nothing;
/// - with three parents or more, the commit is refused;
/// - a merge is rewritten only where `merge_parent_hint` says that it was
///   found admissible;
/// - a commit with one parent is rewritten only where that parent has an
///   outcome;
/// - a root is rewritten.
pub open spec fn sync_commit_step(
    mapping: Map<MappingKey, CommitSyncOutcomeView>,
    repo_id: RepositoryId,
    changeset: ChangesetId,
    parents: Seq<ChangesetId>,
    merge_parent_hint: MergeParentHint,
) -> Result<SyncCommitStepView, SyncError> {
    if mapping.dom().contains((repo_id, changeset)) {
        Ok(SyncCommitStepView::AlreadySynced(mapping[(repo_id, changeset)]))
    } else if parents.len() >= 3 {
        Err(SyncError::UnsupportedMergeArity)
    } else if parents.len() == 2 && merge_parent_hint != MergeParentHint::Admissible {
        Err(SyncError::MergeAmbiguousAncestor)
    } else if parents.len() == 1 && !mapping.dom().contains((repo_id, parents[0])) {
        Err(SyncError::UnknownSyncVersion)
    } else {
        Ok(SyncCommitStepView::Rewrite { remapped_parents: remapped(mapping, repo_id, parents) })
    }
}

/// Syncs the commits of one source repository into one target repository.
#[derive(Debug)]
pub struct CommitSyncer {
    pub source_repo_id: RepositoryId,
    pub target_repo_id: RepositoryId,
    pub mapping: SyncedCommitMapping,
}

impl CommitSyncer {
    /// The outcomes of the commits of the source repository are well kept.
    pub open spec fn wf(&self) -> bool {
        self.mapping.wf()
    }

    /// A syncer for the pair that has synced nothing yet.
    pub fn new(source_repo_id: RepositoryId, target_repo_id: RepositoryId) -> (res: CommitSyncer)
        ensures
            res.wf(),
            res.source_repo_id == source_repo_id,
            res.target_repo_id == target_repo_id,
            res.mapping@ == Map::<MappingKey, CommitSyncOutcomeView>::empty(),
    {
        CommitSyncer { source_repo_id, target_repo_id, mapping: SyncedCommitMapping::new() }
    }

    /// The repository that commits are read from.
    pub fn get_source_repo(&self) -> (res: RepositoryId)
        ensures
            res == self.source_repo_id,
    {
        self.source_repo_id
    }

    /// The repository that commits are written to.
    pub fn get_target_repo(&self) -> (res: RepositoryId)
        ensures
            res == self.target_repo_id,
    {
        self.target_repo_id
    }

    /// The outcome of a commit of the source repository, if it has one.
    pub fn get_commit_sync_outcome(&self, cs_id: ChangesetId) -> (res: Option<CommitSyncOutcome>)
        requires
            self.wf(),
        ensures
            res.is_some() == self.mapping@.dom().contains((self.source_repo_id, cs_id)),
            res matches Some(outcome) ==> outcome@ == self.mapping@[(self.source_repo_id, cs_id)],
    {
        self.mapping.get_outcome(self.source_repo_id, cs_id)
    }

    fn remap_parents(&self, parents: &Vec<ChangesetId>) -> (res: Vec<ChangesetId>)
        requires
            self.wf(),
        ensures
            res@ == remapped(self.mapping@, self.source_repo_id, parents@),
    {
        let mut res: Vec<ChangesetId> = Vec::new();
        let mut i: usize = 0;
        while i < parents.len()
            invariant
                self.wf(),
                i <= parents.len(),
                res@ == remapped(self.mapping@, self.source_repo_id, parents@.subrange(0, i as int)),
            decreases parents.len() - i,
        {
            assert(parents@.subrange(0, i + 1).drop_last() == parents@.subrange(0, i as int));
            assert(parents@.subrange(0, i + 1).last() == parents@[i as int]);
            match self.mapping.get_outcome(self.source_repo_id, parents[i]) {
                Some(CommitSyncOutcome::RewrittenAs(cs_id, _)) => {
                    res.push(cs_id);
                },
                Some(CommitSyncOutcome::EquivalentWorkingCopyAncestor(cs_id, _)) => {
                    res.push(cs_id);
                },
                Some(CommitSyncOutcome::NotSyncCandidate(_)) => {},
                None => {},
            }
            i += 1;
        }
        assert(parents@.subrange(0, i as int) == parents@);
        res
    }

    /// Decides what is to be done for `changeset`. The mapping is read, never
    /// written: a commit that has an outcome is answered with that outcome,
    /// and no second target commit is asked for.
    pub fn sync_commit(
        &self,
        changeset: ChangesetId,
        parents: &Vec<ChangesetId>,
        merge_parent_hint: MergeParentHint,
    ) -> (res: Result<SyncCommitStep, SyncError>)
        requires
            self.wf(),
        ensures
            match sync_commit_step(
                self.mapping@,
                self.source_repo_id,
                changeset,
                parents@,
                merge_parent_hint,
            ) {
                Ok(step) => res matches Ok(s) && s@ == step,
                Err(error) => res matches Err(e) && e == error,
            },
    {
        if let Some(outcome) = self.mapping.get_outcome(self.source_repo_id, changeset) {
            return Ok(SyncCommitStep::AlreadySynced(outcome));
        }
        if parents.len() >= 3 {
            return Err(SyncError::UnsupportedMergeArity);
        }
        if parents.len() == 2 {
            match merge_parent_hint {
                MergeParentHint::Admissible => {},
                MergeParentHint::Unchecked => {
                    return Err(SyncError::MergeAmbiguousAncestor);
                },
            }
        }
        if parents.len() == 1 {
            if self.mapping.get_outcome(self.source_repo_id, parents[0]).is_none() {
                return Err(SyncError::UnknownSyncVersion);
            }
        }
        Ok(SyncCommitStep::Rewrite { remapped_parents: self.remap_parents(parents) })
    }

    /// Records that `changeset` was rewritten as the target commit
    /// `rewritten` under `config_version`. This writes the one entry of the
    /// commit. Where the commit has that very outcome already, nothing
    /// changes. Where it has another one, the write is refused and the
    /// mapping stays as it was.
    pub fn complete_sync_commit(
        &mut self,
        changeset: ChangesetId,
        config_version: &CommitSyncConfigVersion,
        rewritten: ChangesetId,
    ) -> (res: Result<CommitSyncOutcome, SyncError>)
        requires
            old(self).wf(),
        ensures
            final(self).wf(),
            final(self).source_repo_id == old(self).source_repo_id,
            final(self).target_repo_id == old(self).target_repo_id,
            final(self).mapping@ == put(
                old(self).mapping@,
                (old(self).source_repo_id, changeset),
                CommitSyncOutcomeView::RewrittenAs(rewritten, config_version@),
            ),
            res.is_ok() == accepts(
                old(self).mapping@,
                (old(self).source_repo_id, changeset),
                CommitSyncOutcomeView::RewrittenAs(rewritten, config_version@),
            ),
            res matches Ok(outcome) ==> outcome@ == CommitSyncOutcomeView::RewrittenAs(
                rewritten,
                config_version@,
            ),
            res matches Err(e) ==> e == SyncError::ConflictingOutcome,
    {
        let outcome = CommitSyncOutcome::RewrittenAs(rewritten, config_version.clone());
        let recorded = outcome.clone();
        match self.mapping.put_outcome(self.source_repo_id, changeset, recorded) {
            Ok(()) => Ok(outcome),
            Err(e) => Err(e),
        }
    }
}

/// Syncing is idempotent. Once a commit was recorded as rewritten, asking
/// again what is to be done for it gives that same outcome and asks for no
/// rewrite, whatever its parents and the hint; and recording the same
/// rewrite again leaves the mapping as it is.
pub proof fn lemma_sync_commit_idempotent(
    mapping: Map<MappingKey, CommitSyncOutcomeView>,
    repo_id: RepositoryId,
    changeset: ChangesetId,
    parents: Seq<ChangesetId>,
    merge_parent_hint: MergeParentHint,
    config_version: Seq<char>,
    rewritten: ChangesetId,
)
    requires
        !mapping.dom().contains((repo_id, changeset)),
    ensures
        ({
            let outcome = CommitSyncOutcomeView::RewrittenAs(rewritten, config_version);
            let after = put(mapping, (repo_id, changeset), outcome);
            &&& sync_commit_step(after, repo_id, changeset, parents, merge_parent_hint) == Ok::<
                SyncCommitStepView,
                SyncError,
            >(SyncCommitStepView::AlreadySynced(outcome))
            &&& accepts(after, (repo_id, changeset), outcome)
            &&& put(after, (repo_id, changeset), outcome) == after
        }),
{
}

/// A commit that already has an outcome is never rewritten again: the step
/// decided for it is that outcome, under every version that a second sync
/// may ask for.
pub proof fn lemma_synced_commit_is_not_rewritten(
    mapping: Map<MappingKey, CommitSyncOutcomeView>,
    repo_id: RepositoryId,
    changeset: ChangesetId,
    parents: Seq<ChangesetId>,
    merge_parent_hint: MergeParentHint,
)
    requires
        mapping.dom().contains((repo_id, changeset)),
    ensures
        sync_commit_step(mapping, repo_id, changeset, parents, merge_parent_hint) == Ok::<
            SyncCommitStepView,
            SyncError,
        >(SyncCommitStepView::AlreadySynced(mapping[(repo_id, changeset)])),
{
}


/// A commit is rewritten only after its ancestors. Where the step decided
/// for a commit with at most one parent is a rewrite, recording its outcome
/// leaves no gap: every ancestor of every commit with an outcome still has
/// an outcome. For a merge the same holds where both parents have outcomes,
/// as they have when the history that the merge brings in was synced first.
pub proof fn lemma_rewrite_keeps_gap_free(
    mapping: Map<MappingKey, CommitSyncOutcomeView>,
    repo_id: RepositoryId,
    graph: CommitGraph,
    changeset: ChangesetId,
    parents: Seq<ChangesetId>,
    merge_parent_hint: MergeParentHint,
    outcome: CommitSyncOutcomeView,
)
    requires
        gap_free(mapping, repo_id, graph),
        graph.dom().contains(changeset) ==> graph[changeset] == parents,
        sync_commit_step(mapping, repo_id, changeset, parents, merge_parent_hint)
            is Ok,
        parents.len() >= 2 ==> forall|i: int|
            0 <= i < parents.len() ==> has_outcome(mapping, repo_id, #[trigger] parents[i]),
    ensures
        gap_free(put(mapping, (repo_id, changeset), outcome), repo_id, graph),
{
    if !mapping.dom().contains((repo_id, changeset)) {
        assert forall|p: ChangesetId| #[trigger] is_parent(graph, p, changeset) implies has_outcome(
            mapping,
            repo_id,
            p,
        ) by {
            let i = choose|i: int| 0 <= i < parents.len() && parents[i] == p;
            assert(has_outcome(mapping, repo_id, parents[i]));
        }
        lemma_record_keeps_gap_free(mapping, repo_id, graph, changeset, outcome);
    }
}

/// A change of a commit together with what the path mover gave for its
/// path: the path in the target repository, or nothing where the path has
/// no place there.
#[derive(Debug, PartialEq, Eq)]
pub struct MovedChange<C> {
    pub moved_path: Option<String>,
    pub change: C,
}

/// The changes that have a place in the target repository, in order, each
/// under its new path.
pub open spec fn kept_changes<C>(changes: Seq<MovedChange<C>>) -> Seq<(String, C)>
    decreases changes.len(),
{
    if changes.len() == 0 {
        Seq::empty()
    } else {
        match changes.last().moved_path {
            Some(path) => kept_changes(changes.drop_last()).push((path, changes.last().change)),
            None => kept_changes(changes.drop_last()),
        }
    }
}

/// Rewrites the changes of a commit for the target repository: each change
/// goes under the path that the mover gave for it, and a change whose path
/// has no place in the target repository is dropped.
pub fn rewrite_changes<C>(changes: Vec<MovedChange<C>>) -> (res: Vec<(String, C)>)
    ensures
        res@ == kept_changes(changes@),
{
    let mut res: Vec<(String, C)> = Vec::new();
    for moved in iter: changes
        invariant
            iter.seq() == changes@,
            res@ == kept_changes(changes@.subrange(0, iter.index() as int)),
    {
        assert(changes@.subrange(0, iter.index() + 1).drop_last() == changes@.subrange(
            0,
            iter.index() as int,
        ));
        assert(changes@.subrange(0, iter.index() + 1).last() == moved);
        match moved.moved_path {
            Some(path) => {
                res.push((path, moved.change));
            },
            None => {},
        }
    }
    assert(changes@.subrange(0, changes@.len() as int) == changes@);
    res
}

} // verus!
