//! Ancestry, as far as the contracts of the engine speak of it, and the rule
//! that outcomes leave no gaps: a commit gets its outcome only after all
//! its ancestors have theirs.

use vstd::prelude::*;
use crate::synced_commit_mapping::{put, MappingKey};
use crate::types::{ChangesetId, CommitSyncOutcomeView, RepositoryId};

verus! {

/// The parents of each commit of a repository.
pub type CommitGraph = Map<ChangesetId, Seq<ChangesetId>>;

/// Whether `parent` is a parent of `child`.
pub open spec fn is_parent(graph: CommitGraph, parent: ChangesetId, child: ChangesetId) -> bool {
    graph.dom().contains(child) && graph[child].contains(parent)
}

/// Whether each commit of `path` is followed by one of its parents.
pub open spec fn is_path(graph: CommitGraph, path: Seq<ChangesetId>) -> bool {
    &&& path.len() >= 1
    &&& forall|i: int| 0 <= i < path.len() - 1 ==> is_parent(graph, #[trigger] path[i + 1], path[i])
}

/// Whether `ancestor` is reached from `descendant` by going from child to
/// parent any number of times. Every commit is an ancestor of itself.
pub open spec fn is_ancestor(graph: CommitGraph, ancestor: ChangesetId, descendant: ChangesetId) -> bool {
    exists|path: Seq<ChangesetId>|
        #[trigger] is_path(graph, path) && path[0] == descendant && path.last() == ancestor
}

/// Whether the commit has an outcome.
pub open spec fn has_outcome(
    mapping: Map<MappingKey, CommitSyncOutcomeView>,
    repo_id: RepositoryId,
    cs_id: ChangesetId,
) -> bool {
    mapping.dom().contains((repo_id, cs_id))
}

/// Whether every ancestor of a commit with an outcome has an outcome.
pub open spec fn gap_free(
    mapping: Map<MappingKey, CommitSyncOutcomeView>,
    repo_id: RepositoryId,
    graph: CommitGraph,
) -> bool {
    forall|x: ChangesetId, y: ChangesetId|
        has_outcome(mapping, repo_id, y) && #[trigger] is_ancestor(graph, x, y) ==> has_outcome(
            mapping,
            repo_id,
            x,
        )
}

/// Whether every parent of `cs_id` has an outcome.
pub open spec fn parents_have_outcomes(
    mapping: Map<MappingKey, CommitSyncOutcomeView>,
    repo_id: RepositoryId,
    graph: CommitGraph,
    cs_id: ChangesetId,
) -> bool {
    forall|p: ChangesetId| #[trigger] is_parent(graph, p, cs_id) ==> has_outcome(mapping, repo_id, p)
}

/// Recording an outcome for a commit whose parents all have outcomes leaves
/// no gap: afterwards every ancestor of every commit with an outcome still
/// has an outcome.
pub proof fn lemma_record_keeps_gap_free(
    mapping: Map<MappingKey, CommitSyncOutcomeView>,
    repo_id: RepositoryId,
    graph: CommitGraph,
    cs_id: ChangesetId,
    outcome: CommitSyncOutcomeView,
)
    requires
        gap_free(mapping, repo_id, graph),
        parents_have_outcomes(mapping, repo_id, graph, cs_id),
    ensures
        gap_free(put(mapping, (repo_id, cs_id), outcome), repo_id, graph),
{
    let after = put(mapping, (repo_id, cs_id), outcome);
    assert forall|x: ChangesetId, y: ChangesetId|
        has_outcome(after, repo_id, y) && #[trigger] is_ancestor(graph, x, y) implies has_outcome(
        after,
        repo_id,
        x,
    ) by {
        if has_outcome(mapping, repo_id, y) {
            assert(has_outcome(mapping, repo_id, x));
        } else {
            assert(y == cs_id);
            let path = choose|path: Seq<ChangesetId>|
                #[trigger] is_path(graph, path) && path[0] == y && path.last() == x;
            if path.len() > 1 {
                let rest = path.subrange(1, path.len() as int);
                assert(is_parent(graph, path[0int + 1], path[0]));
                assert(has_outcome(mapping, repo_id, path[1]));
                assert(is_path(graph, rest)) by {
                    assert forall|i: int| 0 <= i < rest.len() - 1 implies is_parent(
                        graph,
                        #[trigger] rest[i + 1],
                        rest[i],
                    ) by {
                        assert(is_parent(graph, path[(i + 1) + 1], path[i + 1]));
                    }
                }
                assert(rest[0] == path[1] && rest.last() == x);
                assert(is_ancestor(graph, x, path[1]));
                assert(has_outcome(mapping, repo_id, x));
            }
        }
    }
}

/// The mapping after the commits of `batch` got the outcomes `outcomes`, in
/// order.
pub open spec fn record_all(
    mapping: Map<MappingKey, CommitSyncOutcomeView>,
    repo_id: RepositoryId,
    batch: Seq<ChangesetId>,
    outcomes: Seq<CommitSyncOutcomeView>,
) -> Map<MappingKey, CommitSyncOutcomeView>
    decreases batch.len(),
{
    if batch.len() == 0 || outcomes.len() != batch.len() {
        mapping
    } else {
        put(
            record_all(mapping, repo_id, batch.drop_last(), outcomes.drop_last()),
            (repo_id, batch.last()),
            outcomes.last(),
        )
    }
}

/// Whether `batch` lists commits with ancestors first: each parent of a
/// commit of the batch has an outcome already or stands earlier in the batch.
pub open spec fn ancestors_first(
    mapping: Map<MappingKey, CommitSyncOutcomeView>,
    repo_id: RepositoryId,
    graph: CommitGraph,
    batch: Seq<ChangesetId>,
) -> bool {
    forall|i: int, p: ChangesetId|
        0 <= i < batch.len() && #[trigger] is_parent(graph, p, batch[i]) ==> has_outcome(
            mapping,
            repo_id,
            p,
        ) || exists|j: int| 0 <= j < i && batch[j] == p
}

/// Syncing a batch with ancestors first leaves no gap, neither at the end
/// nor after any commit of the batch. So a batch that is abandoned half way
/// leaves the mapping without gaps too.
pub proof fn lemma_batch_keeps_gap_free(
    mapping: Map<MappingKey, CommitSyncOutcomeView>,
    repo_id: RepositoryId,
    graph: CommitGraph,
    batch: Seq<ChangesetId>,
    outcomes: Seq<CommitSyncOutcomeView>,
)
    requires
        gap_free(mapping, repo_id, graph),
        ancestors_first(mapping, repo_id, graph, batch),
        outcomes.len() == batch.len(),
    ensures
        gap_free(record_all(mapping, repo_id, batch, outcomes), repo_id, graph),
        forall|c: ChangesetId|
            has_outcome(mapping, repo_id, c) || batch.contains(c) ==> #[trigger] has_outcome(
                record_all(mapping, repo_id, batch, outcomes),
                repo_id,
                c,
            ),
        forall|k: int|
            0 <= k <= batch.len() ==> gap_free(
                #[trigger] record_all(
                    mapping,
                    repo_id,
                    batch.subrange(0, k),
                    outcomes.subrange(0, k),
                ),
                repo_id,
                graph,
            ),
    decreases batch.len(),
{
    if batch.len() > 0 {
        let init = batch.drop_last();
        let init_outcomes = outcomes.drop_last();
        let last = batch.last();
        assert(ancestors_first(mapping, repo_id, graph, init)) by {
            assert forall|i: int, p: ChangesetId|
                0 <= i < init.len() && #[trigger] is_parent(graph, p, init[i]) implies has_outcome(
                mapping,
                repo_id,
                p,
            ) || exists|j: int| 0 <= j < i && init[j] == p by {
                assert(init[i] == batch[i]);
                if !has_outcome(mapping, repo_id, p) {
                    let j = choose|j: int| 0 <= j < i && batch[j] == p;
                    assert(init[j] == p);
                }
            }
        }
        lemma_batch_keeps_gap_free(mapping, repo_id, graph, init, init_outcomes);
        let before = record_all(mapping, repo_id, init, init_outcomes);
        assert(parents_have_outcomes(before, repo_id, graph, last)) by {
            assert forall|p: ChangesetId| is_parent(graph, p, last) implies has_outcome(
                before,
                repo_id,
                p,
            ) by {
                assert(is_parent(graph, p, batch[batch.len() - 1]));
                if !has_outcome(mapping, repo_id, p) {
                    let j = choose|j: int| 0 <= j < batch.len() - 1 && batch[j] == p;
                    assert(init[j] == p);
                    assert(init.contains(p));
                }
                assert(has_outcome(mapping, repo_id, p) || init.contains(p));
            }
        }
        lemma_record_keeps_gap_free(before, repo_id, graph, last, outcomes.last());
        let end = record_all(mapping, repo_id, batch, outcomes);
        assert forall|c: ChangesetId|
            has_outcome(mapping, repo_id, c) || batch.contains(c) implies #[trigger] has_outcome(
            end,
            repo_id,
            c,
        ) by {
            if batch.contains(c) && c != last {
                let k = choose|k: int| 0 <= k < batch.len() && batch[k] == c;
                assert(init[k] == c);
                assert(init.contains(c));
            }
            if c != last {
                assert(has_outcome(mapping, repo_id, c) || init.contains(c));
                assert(has_outcome(before, repo_id, c));
            }
        }
        assert forall|k: int| 0 <= k <= batch.len() implies gap_free(
            #[trigger] record_all(mapping, repo_id, batch.subrange(0, k), outcomes.subrange(0, k)),
            repo_id,
            graph,
        ) by {
            if k == batch.len() {
                assert(batch.subrange(0, k) == batch);
                assert(outcomes.subrange(0, k) == outcomes);
            } else {
                assert(batch.subrange(0, k) == init.subrange(0, k));
                assert(outcomes.subrange(0, k) == init_outcomes.subrange(0, k));
            }
        }
    } else {
        assert forall|k: int| 0 <= k <= batch.len() implies gap_free(
            #[trigger] record_all(mapping, repo_id, batch.subrange(0, k), outcomes.subrange(0, k)),
            repo_id,
            graph,
        ) by {
            assert(batch.subrange(0, k).len() == 0);
        }
    }
}

} // verus!
