//! The mapping from source commits to their outcomes. It only grows: an
//! outcome, once recorded for a commit of a repository, is never replaced.

use vstd::prelude::*;
use crate::types::{ChangesetId, CommitSyncOutcome, CommitSyncOutcomeView, RepositoryId, SyncError};

verus! {

/// A commit of one repository.
pub type MappingKey = (RepositoryId, ChangesetId);

/// One recorded outcome.
#[derive(Debug)]
pub struct MappingEntry {
    pub repo_id: RepositoryId,
    pub cs_id: ChangesetId,
    pub outcome: CommitSyncOutcome,
}

impl MappingEntry {
    pub open spec fn key(self) -> MappingKey {
        (self.repo_id, self.cs_id)
    }
}

/// No two entries speak of the same commit of the same repository.
pub open spec fn keys_unique(entries: Seq<MappingEntry>) -> bool {
    forall|i: int, j: int|
        0 <= i < entries.len() && 0 <= j < entries.len() && (#[trigger] entries[i]).key() == (
        #[trigger] entries[j]).key() ==> i == j
}

/// The outcomes that `entries` record, by commit.
pub open spec fn outcomes_of(entries: Seq<MappingEntry>) -> Map<MappingKey, CommitSyncOutcomeView>
    decreases entries.len(),
{
    if entries.len() == 0 {
        Map::empty()
    } else {
        outcomes_of(entries.drop_last()).insert(entries.last().key(), entries.last().outcome@)
    }
}

/// A commit has an outcome exactly when an entry speaks of it, and then the
/// outcome is that of the one entry that does.
pub proof fn lemma_outcomes_of(entries: Seq<MappingEntry>)
    requires
        keys_unique(entries),
    ensures
        forall|k: MappingKey|
            outcomes_of(entries).dom().contains(k) <==> exists|i: int|
                0 <= i < entries.len() && (#[trigger] entries[i]).key() == k,
        forall|i: int|
            0 <= i < entries.len() ==> outcomes_of(entries).dom().contains(
                (#[trigger] entries[i]).key(),
            ) && outcomes_of(entries)[entries[i].key()] == entries[i].outcome@,
    decreases entries.len(),
{
    if entries.len() > 0 {
        let init = entries.drop_last();
        let last = entries.last();
        assert forall|i: int, j: int|
            0 <= i < init.len() && 0 <= j < init.len() && (#[trigger] init[i]).key() == (
            #[trigger] init[j]).key() implies i == j by {
            assert(entries[i].key() == entries[j].key());
        }
        lemma_outcomes_of(init);
        assert forall|k: MappingKey|
            outcomes_of(entries).dom().contains(k) <==> exists|i: int|
                0 <= i < entries.len() && (#[trigger] entries[i]).key() == k by {
            if outcomes_of(entries).dom().contains(k) {
                if k == last.key() {
                    assert(entries[entries.len() - 1].key() == k);
                } else {
                    assert(outcomes_of(init).dom().contains(k));
                    let i = choose|i: int| 0 <= i < init.len() && (#[trigger] init[i]).key() == k;
                    assert(entries[i].key() == k);
                }
            }
            if exists|i: int| 0 <= i < entries.len() && (#[trigger] entries[i]).key() == k {
                let i = choose|i: int| 0 <= i < entries.len() && (#[trigger] entries[i]).key() == k;
                if i < init.len() {
                    assert(init[i].key() == k);
                }
            }
        }
        assert forall|i: int| 0 <= i < entries.len() implies outcomes_of(entries).dom().contains(
            (#[trigger] entries[i]).key(),
        ) && outcomes_of(entries)[entries[i].key()] == entries[i].outcome@ by {
            if i < init.len() {
                assert(init[i].key() == entries[i].key());
                assert(entries[i].key() != entries[entries.len() - 1].key());
            }
        }
    }
}

/// The append-only record of what became of each source commit.
#[derive(Debug)]
pub struct SyncedCommitMapping {
    entries: Vec<MappingEntry>,
}

impl View for SyncedCommitMapping {
    type V = Map<MappingKey, CommitSyncOutcomeView>;

    closed spec fn view(&self) -> Map<MappingKey, CommitSyncOutcomeView> {
        outcomes_of(self.entries@)
    }
}

impl SyncedCommitMapping {
    /// No commit has two entries.
    pub closed spec fn wf(&self) -> bool {
        keys_unique(self.entries@)
    }

    /// A mapping without any outcome.
    pub fn new() -> (res: SyncedCommitMapping)
        ensures
            res.wf(),
            res@ == Map::<MappingKey, CommitSyncOutcomeView>::empty(),
    {
        SyncedCommitMapping { entries: Vec::new() }
    }

    /// How many commits have an outcome.
    pub fn len(&self) -> (res: usize)
        requires
            self.wf(),
        ensures
            res == self@.dom().len(),
            self@.dom().finite(),
    {
        proof {
            lemma_outcomes_len(self.entries@);
        }
        self.entries.len()
    }

    fn position(&self, repo_id: RepositoryId, cs_id: ChangesetId) -> (res: Option<usize>)
        requires
            self.wf(),
        ensures
            match res {
                Some(i) => i < self.entries@.len() && self.entries@[i as int].key() == (
                    repo_id,
                    cs_id,
                ) && self@.dom().contains((repo_id, cs_id)) && self@[(repo_id, cs_id)]
                    == self.entries@[i as int].outcome@,
                None => !self@.dom().contains((repo_id, cs_id)),
            },
    {
        let mut i: usize = 0;
        while i < self.entries.len()
            invariant
                self.wf(),
                i <= self.entries.len(),
                forall|j: int| 0 <= j < i ==> (#[trigger] self.entries@[j]).key() != (repo_id, cs_id),
            decreases self.entries.len() - i,
        {
            if self.entries[i].repo_id == repo_id && self.entries[i].cs_id == cs_id {
                proof {
                    lemma_outcomes_of(self.entries@);
                }
                return Some(i);
            }
            i += 1;
        }
        proof {
            lemma_outcomes_of(self.entries@);
        }
        None
    }

    /// The outcome recorded for commit `cs_id` of repository `repo_id`.
    pub fn get_outcome(&self, repo_id: RepositoryId, cs_id: ChangesetId) -> (res: Option<
        CommitSyncOutcome,
    >)
        requires
            self.wf(),
        ensures
            res.is_some() == self@.dom().contains((repo_id, cs_id)),
            res matches Some(outcome) ==> outcome@ == self@[(repo_id, cs_id)],
    {
        match self.position(repo_id, cs_id) {
            Some(i) => Some(self.entries[i].outcome.clone()),
            None => None,
        }
    }

    /// Records `outcome` for commit `cs_id` of repository `repo_id`. A commit
    /// without an outcome gets it. Offering again the outcome that a commit
    /// already has changes nothing and succeeds. Offering a different one is
    /// refused with `ConflictingOutcome`, and the mapping stays as it was.
    pub fn put_outcome(
        &mut self,
        repo_id: RepositoryId,
        cs_id: ChangesetId,
        outcome: CommitSyncOutcome,
    ) -> (res: Result<(), SyncError>)
        requires
            old(self).wf(),
        ensures
            final(self).wf(),
            final(self)@ == put(old(self)@, (repo_id, cs_id), outcome@),
            res.is_ok() == accepts(old(self)@, (repo_id, cs_id), outcome@),
            res matches Err(e) ==> e == SyncError::ConflictingOutcome,
    {
        match self.position(repo_id, cs_id) {
            Some(i) => {
                if self.entries[i].outcome.same_as(&outcome) {
                    Ok(())
                } else {
                    Err(SyncError::ConflictingOutcome)
                }
            },
            None => {
                proof {
                    lemma_outcomes_of(self.entries@);
                }
                let ghost before = self.entries@;
                self.entries.push(MappingEntry { repo_id, cs_id, outcome });
                assert(self.entries@.drop_last() == before);
                assert(keys_unique(self.entries@)) by {
                    assert forall|i: int, j: int|
                        0 <= i < self.entries@.len() && 0 <= j < self.entries@.len() && (
                        #[trigger] self.entries@[i]).key() == (#[trigger] self.entries@[j]).key()
                        implies i == j by {
                        if i < before.len() {
                            assert(before[i].key() == self.entries@[i].key());
                        }
                        if j < before.len() {
                            assert(before[j].key() == self.entries@[j].key());
                        }
                    }
                }
                Ok(())
            },
        }
    }
}

/// Whether a mapping takes `outcome` for `key`: the commit has no outcome
/// yet, or has this very one.
pub open spec fn accepts(
    mapping: Map<MappingKey, CommitSyncOutcomeView>,
    key: MappingKey,
    outcome: CommitSyncOutcomeView,
) -> bool {
    !mapping.dom().contains(key) || mapping[key] == outcome
}

/// The mapping after `outcome` was offered for `key`.
pub open spec fn put(
    mapping: Map<MappingKey, CommitSyncOutcomeView>,
    key: MappingKey,
    outcome: CommitSyncOutcomeView,
) -> Map<MappingKey, CommitSyncOutcomeView> {
    if mapping.dom().contains(key) {
        mapping
    } else {
        mapping.insert(key, outcome)
    }
}

/// Entries with unique keys record as many outcomes as there are entries.
pub proof fn lemma_outcomes_len(entries: Seq<MappingEntry>)
    requires
        keys_unique(entries),
    ensures
        outcomes_of(entries).dom().finite(),
        outcomes_of(entries).dom().len() == entries.len(),
    decreases entries.len(),
{
    if entries.len() > 0 {
        let init = entries.drop_last();
        assert forall|i: int, j: int|
            0 <= i < init.len() && 0 <= j < init.len() && (#[trigger] init[i]).key() == (
            #[trigger] init[j]).key() implies i == j by {
            assert(entries[i].key() == entries[j].key());
        }
        lemma_outcomes_len(init);
        lemma_outcomes_of(init);
        assert(!outcomes_of(init).dom().contains(entries.last().key())) by {
            if outcomes_of(init).dom().contains(entries.last().key()) {
                let i = choose|i: int|
                    0 <= i < init.len() && (#[trigger] init[i]).key() == entries.last().key();
                assert(entries[i].key() == entries[entries.len() - 1].key());
            }
        }
    }
}

/// An outcome, once recorded, stays: whatever is offered afterwards, every
/// commit that had an outcome keeps exactly that outcome. So no commit ever
/// has two different outcomes.
pub proof fn lemma_put_keeps_outcomes(
    mapping: Map<MappingKey, CommitSyncOutcomeView>,
    key: MappingKey,
    outcome: CommitSyncOutcomeView,
)
    ensures
        forall|k: MappingKey|
            mapping.dom().contains(k) ==> put(mapping, key, outcome).dom().contains(k) && put(
                mapping,
                key,
                outcome,
            )[k] == mapping[k],
        put(mapping, key, outcome).dom().contains(key),
        accepts(mapping, key, outcome) <==> put(mapping, key, outcome)[key] == outcome,
{
}

/// Offering the same outcome a second time is accepted and changes nothing.
pub proof fn lemma_put_idempotent(
    mapping: Map<MappingKey, CommitSyncOutcomeView>,
    key: MappingKey,
    outcome: CommitSyncOutcomeView,
)
    requires
        accepts(mapping, key, outcome),
    ensures
        accepts(put(mapping, key, outcome), key, outcome),
        put(put(mapping, key, outcome), key, outcome) == put(mapping, key, outcome),
{
}

} // verus!
