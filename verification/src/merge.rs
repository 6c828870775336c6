//! Admissibility of merges. The one supported merge imports a history that
//! shares no commit with the other parent's history: a new branch.

use vstd::prelude::*;
use crate::ancestry::{is_ancestor, is_parent, is_path, CommitGraph};
use crate::types::{ChangesetId, SyncError};

verus! {

/// A commit and its parents, as loaded from a repository.
#[derive(Debug, PartialEq, Eq)]
pub struct ChangesetParents {
    pub cs_id: ChangesetId,
    pub parents: Vec<ChangesetId>,
}

/// The two parents of a merge, told apart by generation number.
#[derive(Clone, Copy, Debug, PartialEq, Eq, Structural, Hash)]
pub struct MergeParents {
    /// The parent taken to continue the existing history.
    pub larger_gen: ChangesetId,
    /// The parent taken to be the tip of the new branch.
    pub smaller_gen: ChangesetId,
}

/// The commits of `bcss`, in order.
pub open spec fn changeset_ids(bcss: Seq<ChangesetParents>) -> Seq<ChangesetId> {
    Seq::new(bcss.len(), |i: int| bcss[i].cs_id)
}

/// `s` without the later occurrences of commits that occur more than once.
pub open spec fn distinct(s: Seq<ChangesetId>) -> Seq<ChangesetId>
    decreases s.len(),
{
    if s.len() == 0 {
        Seq::empty()
    } else if distinct(s.drop_last()).contains(s.last()) {
        distinct(s.drop_last())
    } else {
        distinct(s.drop_last()).push(s.last())
    }
}

/// Every tip is one of the commits of `bcss`.
pub open spec fn tips_returned(branch_tips: Seq<ChangesetId>, bcss: Seq<ChangesetParents>) -> bool {
    forall|i: int|
        0 <= i < branch_tips.len() ==> changeset_ids(bcss).contains(#[trigger] branch_tips[i])
}

/// Every parent of every commit of `bcss` is itself a commit of `bcss`.
pub open spec fn parents_closed(bcss: Seq<ChangesetParents>) -> bool {
    forall|i: int, j: int|
        0 <= i < bcss.len() && 0 <= j < bcss[i].parents@.len() ==> changeset_ids(bcss).contains(
            #[trigger] bcss[i].parents@[j],
        )
}

/// The commits of an independent branch, or `None` where `bcss` is not one:
/// where a tip is missing from it or a parent leads out of it.
pub open spec fn independent_branch(
    branch_tips: Seq<ChangesetId>,
    bcss: Seq<ChangesetParents>,
) -> Option<Seq<ChangesetId>> {
    if tips_returned(branch_tips, bcss) && parents_closed(bcss) {
        Some(distinct(changeset_ids(bcss)))
    } else {
        None
    }
}

/// Whether an executable result holds the mathematical value `expected`.
pub open spec fn holds(res: Option<Vec<ChangesetId>>, expected: Option<Seq<ChangesetId>>) -> bool {
    match (res, expected) {
        (Some(v), Some(s)) => v@ == s,
        (None, None) => true,
        _ => false,
    }
}

/// `distinct(s)` holds each commit of `s` exactly once.
pub proof fn lemma_distinct(s: Seq<ChangesetId>)
    ensures
        distinct(s).no_duplicates(),
        forall|c: ChangesetId| distinct(s).contains(c) <==> s.contains(c),
    decreases s.len(),
{
    if s.len() > 0 {
        let init = s.drop_last();
        lemma_distinct(init);
        let d = distinct(init);
        assert forall|c: ChangesetId| distinct(s).contains(c) <==> s.contains(c) by {
            if s.contains(c) {
                let k = choose|k: int| 0 <= k < s.len() && s[k] == c;
                if k < s.len() - 1 {
                    assert(init[k] == c);
                    assert(init.contains(c));
                    assert(d.contains(c));
                    if !d.contains(s.last()) {
                        assert(d.push(s.last())[d.index_of(c)] == c);
                    }
                } else {
                    if !d.contains(s.last()) {
                        assert(d.push(s.last())[d.len() as int] == c);
                    }
                }
            }
            if distinct(s).contains(c) {
                if d.contains(c) {
                    assert(init.contains(c));
                    let k = choose|k: int| 0 <= k < init.len() && init[k] == c;
                    assert(s[k] == c);
                } else {
                    let k = choose|k: int| 0 <= k < distinct(s).len() && distinct(s)[k] == c;
                    assert(k == d.len());
                    assert(s[s.len() - 1] == c);
                }
            }
        }
    }
}

/// Whether `bcss` is the difference of two histories: it lists exactly the
/// ancestors of `tip` that are no ancestors of `other`, each with the
/// parents that it has in `graph`.
pub open spec fn is_ancestry_difference(
    graph: CommitGraph,
    tip: ChangesetId,
    other: ChangesetId,
    bcss: Seq<ChangesetParents>,
) -> bool {
    &&& forall|c: ChangesetId| #[trigger]
        changeset_ids(bcss).contains(c) <==> is_ancestor(graph, c, tip) && !is_ancestor(
            graph,
            c,
            other,
        )
    &&& forall|i: int|
        0 <= i < bcss.len() ==> graph.dom().contains((#[trigger] bcss[i]).cs_id)
            && graph[bcss[i].cs_id] == bcss[i].parents@
}

/// Whether two commits have no ancestor in common.
pub open spec fn disjoint_histories(graph: CommitGraph, tip: ChangesetId, other: ChangesetId) -> bool {
    forall|c: ChangesetId| !(#[trigger] is_ancestor(graph, c, tip) && is_ancestor(graph, c, other))
}

/// A parent of an ancestor is an ancestor.
pub proof fn lemma_parent_of_ancestor(
    graph: CommitGraph,
    parent: ChangesetId,
    ancestor: ChangesetId,
    descendant: ChangesetId,
)
    requires
        is_ancestor(graph, ancestor, descendant),
        is_parent(graph, parent, ancestor),
    ensures
        is_ancestor(graph, parent, descendant),
{
    let path = choose|path: Seq<ChangesetId>|
        #[trigger] is_path(graph, path) && path[0] == descendant && path.last() == ancestor;
    let longer = path.push(parent);
    assert(is_path(graph, longer)) by {
        assert forall|i: int| 0 <= i < longer.len() - 1 implies is_parent(
            graph,
            #[trigger] longer[i + 1],
            longer[i],
        ) by {
            if i < path.len() - 1 {
                assert(is_parent(graph, path[i + 1], path[i]));
            }
        }
    }
    assert(longer[0] == descendant && longer.last() == parent);
}

proof fn lemma_path_stays_in_branch(
    graph: CommitGraph,
    bcss: Seq<ChangesetParents>,
    path: Seq<ChangesetId>,
    upto: int,
)
    requires
        is_path(graph, path),
        0 <= upto < path.len(),
        changeset_ids(bcss).contains(path[0]),
        parents_closed(bcss),
        forall|i: int|
            0 <= i < bcss.len() ==> graph.dom().contains((#[trigger] bcss[i]).cs_id)
                && graph[bcss[i].cs_id] == bcss[i].parents@,
    ensures
        changeset_ids(bcss).contains(path[upto]),
    decreases upto,
{
    if upto > 0 {
        lemma_path_stays_in_branch(graph, bcss, path, upto - 1);
        let ids = changeset_ids(bcss);
        let child = path[upto - 1];
        let i = choose|i: int| 0 <= i < ids.len() && ids[i] == child;
        assert(bcss[i].cs_id == child);
        assert(is_parent(graph, path[(upto - 1) + 1], path[upto - 1]));
        let j = choose|j: int| 0 <= j < graph[child].len() && graph[child][j] == path[upto];
        assert(ids.contains(bcss[i].parents@[j]));
    }
}

/// What the check looks at is what it means: where `bcss` is the
/// difference of the histories of `tip` and `other`, the branch of `tip` is
/// found independent exactly when the two commits have no ancestor in
/// common.
pub proof fn lemma_independent_iff_disjoint(
    graph: CommitGraph,
    tip: ChangesetId,
    other: ChangesetId,
    bcss: Seq<ChangesetParents>,
)
    requires
        is_ancestry_difference(graph, tip, other, bcss),
    ensures
        independent_branch(seq![tip], bcss).is_some() <==> disjoint_histories(graph, tip, other),
{
    let ids = changeset_ids(bcss);
    let tips = seq![tip];
    assert(is_ancestor(graph, tip, tip)) by {
        assert(is_path(graph, seq![tip]));
        assert(seq![tip][0] == tip && seq![tip].last() == tip);
    }
    if disjoint_histories(graph, tip, other) {
        assert(ids.contains(tip));
        assert(tips_returned(tips, bcss));
        assert forall|i: int, j: int|
            0 <= i < bcss.len() && 0 <= j < bcss[i].parents@.len() implies ids.contains(
            #[trigger] bcss[i].parents@[j],
        ) by {
            let c = bcss[i].cs_id;
            let p = bcss[i].parents@[j];
            assert(ids[i] == c);
            assert(ids.contains(c));
            assert(graph[c] == bcss[i].parents@);
            assert(is_parent(graph, p, c));
            lemma_parent_of_ancestor(graph, p, c, tip);
        }
    }
    if independent_branch(tips, bcss).is_some() {
        assert(ids.contains(tips[0]));
        assert forall|c: ChangesetId| !(#[trigger] is_ancestor(graph, c, tip) && is_ancestor(
            graph,
            c,
            other,
        )) by {
            if is_ancestor(graph, c, tip) {
                let path = choose|path: Seq<ChangesetId>|
                    #[trigger] is_path(graph, path) && path[0] == tip && path.last() == c;
                lemma_path_stays_in_branch(graph, bcss, path, path.len() - 1);
                assert(ids.contains(c));
            }
        }
    }
}

/// Whether `v` holds `cs_id`.
pub fn contains_changeset(v: &Vec<ChangesetId>, cs_id: ChangesetId) -> (res: bool)
    ensures
        res == v@.contains(cs_id),
{
    let mut i: usize = 0;
    while i < v.len()
        invariant
            i <= v.len(),
            forall|j: int| 0 <= j < i ==> v@[j] != cs_id,
        decreases v.len() - i,
    {
        if v[i] == cs_id {
            return true;
        }
        i += 1;
    }
    false
}

/// Tells the parents of a merge apart: the one with the smaller generation
/// number is taken to be the tip of the new branch. With equal numbers the
/// first parent is. This is a heuristic: in rare histories the parent with
/// the smaller number is not the one that brings the new history.
pub fn order_merge_parents(p1: ChangesetId, p1gen: u64, p2: ChangesetId, p2gen: u64) -> (res:
    MergeParents)
    ensures
        p1gen > p2gen ==> res == (MergeParents { larger_gen: p1, smaller_gen: p2 }),
        p1gen <= p2gen ==> res == (MergeParents { larger_gen: p2, smaller_gen: p1 }),
{
    if p1gen > p2gen {
        MergeParents { larger_gen: p1, smaller_gen: p2 }
    } else {
        MergeParents { larger_gen: p2, smaller_gen: p1 }
    }
}

/// Decides whether `branch_tips` and their ancestors form a history of
/// their own. `bcss` holds the ancestors of the tips that are no ancestors
/// of the other branches, each with its parents. Where a tip is missing
/// from `bcss`, the tip is an ancestor of another branch; where a parent is
/// missing, the histories meet below the tips. In both cases the answer is
/// `None`. Otherwise the commits of `bcss` are returned, each once.
pub fn check_if_independent_branch_and_return(
    branch_tips: &Vec<ChangesetId>,
    bcss: &Vec<ChangesetParents>,
) -> (res: Option<Vec<ChangesetId>>)
    ensures
        holds(res, independent_branch(branch_tips@, bcss@)),
        res matches Some(v) ==> v@.no_duplicates() && forall|c: ChangesetId|
            v@.contains(c) <==> changeset_ids(bcss@).contains(c),
{
    let ghost ids = changeset_ids(bcss@);
    let mut keys: Vec<ChangesetId> = Vec::new();
    let mut i: usize = 0;
    while i < bcss.len()
        invariant
            i <= bcss.len(),
            ids == changeset_ids(bcss@),
            keys@ == distinct(ids.subrange(0, i as int)),
        decreases bcss.len() - i,
    {
        let cs_id = bcss[i].cs_id;
        assert(ids.subrange(0, i + 1).drop_last() == ids.subrange(0, i as int));
        assert(ids.subrange(0, i + 1).last() == cs_id);
        if !contains_changeset(&keys, cs_id) {
            keys.push(cs_id);
        }
        i += 1;
    }
    assert(ids.subrange(0, i as int) == ids);
    proof {
        lemma_distinct(ids);
    }

    let mut t: usize = 0;
    while t < branch_tips.len()
        invariant
            t <= branch_tips.len(),
            ids == changeset_ids(bcss@),
            keys@ == distinct(ids),
            forall|c: ChangesetId| keys@.contains(c) <==> ids.contains(c),
            forall|k: int| 0 <= k < t ==> ids.contains(#[trigger] branch_tips@[k]),
        decreases branch_tips.len() - t,
    {
        if !contains_changeset(&keys, branch_tips[t]) {
            return None;
        }
        t += 1;
    }

    let mut n: usize = 0;
    while n < bcss.len()
        invariant
            n <= bcss.len(),
            ids == changeset_ids(bcss@),
            keys@ == distinct(ids),
            forall|c: ChangesetId| keys@.contains(c) <==> ids.contains(c),
            tips_returned(branch_tips@, bcss@),
            forall|a: int, b: int|
                0 <= a < n && 0 <= b < bcss@[a].parents@.len() ==> ids.contains(
                    #[trigger] bcss@[a].parents@[b],
                ),
        decreases bcss.len() - n,
    {
        let parents = &bcss[n].parents;
        let mut p: usize = 0;
        while p < parents.len()
            invariant
                n < bcss.len(),
                p <= parents.len(),
                parents == &bcss@[n as int].parents,
                ids == changeset_ids(bcss@),
                forall|c: ChangesetId| keys@.contains(c) <==> ids.contains(c),
                forall|b: int| 0 <= b < p ==> ids.contains(#[trigger] parents@[b]),
            decreases parents.len() - p,
        {
            if !contains_changeset(&keys, parents[p]) {
                return None;
            }
            p += 1;
        }
        n += 1;
    }
    Some(keys)
}

/// The new branch that a merge of `p1` and `p2` brings in, as far as
/// `new_branch` shows one, where `new_branch` holds the ancestors of the
/// parent with the smaller generation number that are no ancestors of the
/// other parent.
pub open spec fn new_repo_merge(
    p1: ChangesetId,
    p1gen: u64,
    p2: ChangesetId,
    p2gen: u64,
    new_branch: Seq<ChangesetParents>,
) -> Option<Seq<ChangesetId>> {
    independent_branch(seq![if p1gen > p2gen { p2 } else { p1 }], new_branch)
}

/// Whether `res` is the verdict on a merge of `p1` and `p2`: the commits of
/// the new branch where the merge brings one in, and the refusal where it
/// does not.
pub open spec fn is_merge_verdict(
    res: Result<Vec<ChangesetId>, SyncError>,
    p1: ChangesetId,
    p1gen: u64,
    p2: ChangesetId,
    p2gen: u64,
    new_branch: Seq<ChangesetParents>,
) -> bool {
    match new_repo_merge(p1, p1gen, p2, p2gen, new_branch) {
        Some(branch) => res matches Ok(v) && v@ == branch,
        None => res matches Err(e) && e == SyncError::MergeAmbiguousAncestor,
    }
}

/// The verdict on a merge depends on the ancestry alone. Two verdicts on
/// the same parents, generation numbers and ancestors agree: both accept
/// the merge and name the same commits in the same order, or both refuse it
/// with the same error.
pub proof fn lemma_merge_verdict_is_determined(
    first: Result<Vec<ChangesetId>, SyncError>,
    second: Result<Vec<ChangesetId>, SyncError>,
    p1: ChangesetId,
    p1gen: u64,
    p2: ChangesetId,
    p2gen: u64,
    new_branch: Seq<ChangesetParents>,
)
    requires
        is_merge_verdict(first, p1, p1gen, p2, p2gen, new_branch),
        is_merge_verdict(second, p1, p1gen, p2, p2gen, new_branch),
    ensures
        first.is_ok() == second.is_ok(),
        first.is_ok() ==> first.unwrap()@ == second.unwrap()@,
        first.is_err() ==> first.unwrap_err() == second.unwrap_err(),
{
}

/// The commits that a verdict names are closed under parents and hold the
/// tip of the new branch: what is accepted is a whole history.
pub proof fn lemma_new_branch_is_closed(
    p1: ChangesetId,
    p1gen: u64,
    p2: ChangesetId,
    p2gen: u64,
    new_branch: Seq<ChangesetParents>,
)
    requires
        new_repo_merge(p1, p1gen, p2, p2gen, new_branch).is_some(),
    ensures
        ({
            let branch = new_repo_merge(p1, p1gen, p2, p2gen, new_branch).unwrap();
            &&& branch.no_duplicates()
            &&& branch.contains(if p1gen > p2gen { p2 } else { p1 })
            &&& forall|i: int, j: int|
                0 <= i < new_branch.len() && 0 <= j < new_branch[i].parents@.len()
                    ==> branch.contains(#[trigger] new_branch[i].parents@[j])
            &&& forall|i: int| 0 <= i < new_branch.len() ==> branch.contains(#[trigger] new_branch[i].cs_id)
        }),
{
    let tip = if p1gen > p2gen { p2 } else { p1 };
    let tips = seq![tip];
    lemma_distinct(changeset_ids(new_branch));
    assert(changeset_ids(new_branch).contains(tips[0]));
    assert forall|i: int| 0 <= i < new_branch.len() implies distinct(
        changeset_ids(new_branch),
    ).contains(#[trigger] new_branch[i].cs_id) by {
        assert(changeset_ids(new_branch)[i] == new_branch[i].cs_id);
        assert(changeset_ids(new_branch).contains(new_branch[i].cs_id));
    }
}

/// Validates that a merge of `p1` and `p2` is the one supported kind: the
/// parent with the smaller generation number brings a history that shares
/// nothing with the other parent's. `new_branch` is what the commit graph
/// gave for the ancestors of the parent that `order_merge_parents` names
/// `smaller_gen`, without those of `larger_gen`, each loaded with its
/// parents. Returns the commits of the new branch, or
/// `MergeAmbiguousAncestor` for any other merge, such as a diamond.
pub fn validate_if_new_repo_merge(
    p1: ChangesetId,
    p1gen: u64,
    p2: ChangesetId,
    p2gen: u64,
    new_branch: &Vec<ChangesetParents>,
) -> (res: Result<Vec<ChangesetId>, SyncError>)
    ensures
        is_merge_verdict(res, p1, p1gen, p2, p2gen, new_branch@),
{
    let parents = order_merge_parents(p1, p1gen, p2, p2gen);
    let mut branch_tips: Vec<ChangesetId> = Vec::new();
    branch_tips.push(parents.smaller_gen);
    assert(branch_tips@ == seq![if p1gen > p2gen { p2 } else { p1 }]);
    let maybe_independent_branch = check_if_independent_branch_and_return(&branch_tips, new_branch);
    match maybe_independent_branch {
        Some(independent_branch) => Ok(independent_branch),
        None => Err(SyncError::MergeAmbiguousAncestor),
    }
}

} // verus!
