use x_repo_sync::merge::{
    check_if_independent_branch_and_return, contains_changeset, order_merge_parents,
    validate_if_new_repo_merge, ChangesetParents, MergeParents,
};
use x_repo_sync::types::{ChangesetId, SyncError};

fn cs(n: u64) -> ChangesetId {
    ChangesetId { w0: n, w1: 0, w2: 0, w3: 0 }
}

fn commit(id: u64, parents: &[u64]) -> ChangesetParents {
    ChangesetParents { cs_id: cs(id), parents: parents.iter().map(|p| cs(*p)).collect() }
}

#[test]
fn independent_branch_is_returned_whole() {
    // 3 -> 2 -> 1, none of them an ancestor of the other branch
    let bcss = vec![commit(3, &[2]), commit(2, &[1]), commit(1, &[])];
    let res = check_if_independent_branch_and_return(&vec![cs(3)], &bcss);
    assert_eq!(res, Some(vec![cs(3), cs(2), cs(1)]));
}

#[test]
fn branch_whose_tip_was_not_returned_is_not_independent() {
    // the tip is an ancestor of the other branch, so the difference lacks it
    let bcss = vec![commit(2, &[1]), commit(1, &[])];
    assert_eq!(check_if_independent_branch_and_return(&vec![cs(3)], &bcss), None);
    assert_eq!(check_if_independent_branch_and_return(&vec![cs(3)], &vec![]), None);
}

#[test]
fn branch_with_a_parent_outside_is_not_independent() {
    // 2's parent 1 is reachable from the other branch: a diamond
    let bcss = vec![commit(3, &[2]), commit(2, &[1])];
    assert_eq!(check_if_independent_branch_and_return(&vec![cs(3)], &bcss), None);
}

#[test]
fn no_tips_and_no_commits_is_an_empty_branch() {
    assert_eq!(check_if_independent_branch_and_return(&vec![], &vec![]), Some(vec![]));
}

#[test]
fn every_tip_has_to_be_returned() {
    let bcss = vec![commit(3, &[]), commit(4, &[])];
    assert_eq!(
        check_if_independent_branch_and_return(&vec![cs(3), cs(4)], &bcss),
        Some(vec![cs(3), cs(4)])
    );
    assert_eq!(check_if_independent_branch_and_return(&vec![cs(3), cs(5)], &bcss), None);
}

#[test]
fn repeated_commits_are_returned_once() {
    let bcss = vec![commit(2, &[1]), commit(1, &[]), commit(2, &[1])];
    assert_eq!(
        check_if_independent_branch_and_return(&vec![cs(2)], &bcss),
        Some(vec![cs(2), cs(1)])
    );
}

#[test]
fn branch_with_an_inner_merge_is_independent() {
    // 3 merges the two roots 1 and 2
    let bcss = vec![commit(3, &[1, 2]), commit(2, &[]), commit(1, &[])];
    assert_eq!(
        check_if_independent_branch_and_return(&vec![cs(3)], &bcss),
        Some(vec![cs(3), cs(2), cs(1)])
    );
}

#[test]
fn parent_with_smaller_generation_is_the_new_branch() {
    assert_eq!(
        order_merge_parents(cs(10), 7, cs(20), 2),
        MergeParents { larger_gen: cs(10), smaller_gen: cs(20) }
    );
    assert_eq!(
        order_merge_parents(cs(10), 2, cs(20), 7),
        MergeParents { larger_gen: cs(20), smaller_gen: cs(10) }
    );
}

#[test]
fn with_equal_generations_the_first_parent_is_the_new_branch() {
    assert_eq!(
        order_merge_parents(cs(10), 3, cs(20), 3),
        MergeParents { larger_gen: cs(20), smaller_gen: cs(10) }
    );
}

#[test]
fn merge_of_a_new_repo_is_admissible() {
    // p1 = 10 is the mainline with generation 5, p2 = 22 the tip of a new
    // line 22 -> 21
    let new_branch = vec![commit(22, &[21]), commit(21, &[])];
    assert_eq!(
        validate_if_new_repo_merge(cs(10), 5, cs(22), 2, &new_branch),
        Ok(vec![cs(22), cs(21)])
    );
}

#[test]
fn diamond_merge_is_refused() {
    // the smaller parent 22 descends from 9, which the mainline reaches too
    let new_branch = vec![commit(22, &[9])];
    assert_eq!(
        validate_if_new_repo_merge(cs(10), 5, cs(22), 2, &new_branch),
        Err(SyncError::MergeAmbiguousAncestor)
    );
}

#[test]
fn merge_of_an_ancestor_is_refused() {
    // the smaller parent is reachable from the larger one: nothing is new
    assert_eq!(
        validate_if_new_repo_merge(cs(10), 5, cs(4), 2, &vec![]),
        Err(SyncError::MergeAmbiguousAncestor)
    );
}

#[test]
fn merge_whose_branch_misses_the_other_parent_tip() {
    // the difference was taken for the wrong parent: the tip 22 is missing
    let new_branch = vec![commit(10, &[])];
    assert_eq!(
        validate_if_new_repo_merge(cs(10), 5, cs(22), 2, &new_branch),
        Err(SyncError::MergeAmbiguousAncestor)
    );
}

#[test]
fn admissibility_is_the_same_on_repeated_calls() {
    let new_branch = vec![commit(22, &[21]), commit(21, &[])];
    let first = validate_if_new_repo_merge(cs(10), 5, cs(22), 2, &new_branch);
    let second = validate_if_new_repo_merge(cs(10), 5, cs(22), 2, &new_branch);
    assert_eq!(first, second);
    let diamond = vec![commit(22, &[9])];
    let first = validate_if_new_repo_merge(cs(10), 5, cs(22), 2, &diamond);
    let second = validate_if_new_repo_merge(cs(10), 5, cs(22), 2, &diamond);
    assert_eq!(first, second);
}

#[test]
fn contains_changeset_finds_by_value() {
    let v = vec![cs(1), cs(2)];
    assert!(contains_changeset(&v, cs(2)));
    assert!(!contains_changeset(&v, cs(3)));
    assert!(!contains_changeset(&vec![], cs(1)));
    assert!(!contains_changeset(&v, ChangesetId { w0: 1, w1: 1, w2: 0, w3: 0 }));
}
