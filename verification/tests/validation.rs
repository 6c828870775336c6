use x_repo_sync::bookmarks::{move_or_create_bookmark, Bookmarks};
use x_repo_sync::commit_syncer::CommitSyncer;
use x_repo_sync::types::{
    BookmarkKey, ChangesetId, CommitSyncConfigVersion, CommitSyncOutcome, RepositoryId,
};
use x_repo_sync::validation::{find_bookmark_diff, BookmarkDiff, SourceBookmark};

fn cs(n: u64) -> ChangesetId {
    ChangesetId { w0: n, w1: 0, w2: 0, w3: 0 }
}

fn bookmark(name: &str) -> BookmarkKey {
    BookmarkKey { name: name.to_string() }
}

fn source(name: &str, commit: u64) -> SourceBookmark {
    SourceBookmark { target_bookmark: bookmark(name), source_cs_id: cs(commit) }
}

fn world() -> (Bookmarks, CommitSyncer) {
    let version = CommitSyncConfigVersion("v1".to_string());
    let mut syncer = CommitSyncer::new(RepositoryId(1), RepositoryId(0));
    syncer.complete_sync_commit(cs(1), &version, cs(101)).unwrap();
    syncer.complete_sync_commit(cs(2), &version, cs(102)).unwrap();
    syncer
        .mapping
        .put_outcome(RepositoryId(1), cs(3), CommitSyncOutcome::NotSyncCandidate(version))
        .unwrap();
    let mut target = Bookmarks::new();
    move_or_create_bookmark(&mut target, &bookmark("master"), cs(101)).unwrap();
    move_or_create_bookmark(&mut target, &bookmark("stale"), cs(101)).unwrap();
    (target, syncer)
}

#[test]
fn bookmarks_in_order_are_not_reported() {
    let (target, syncer) = world();
    assert_eq!(find_bookmark_diff(&vec![source("master", 1)], &target, &syncer), vec![]);
    assert_eq!(find_bookmark_diff(&vec![], &target, &syncer), vec![]);
}

#[test]
fn missing_bookmark_is_reported() {
    let (target, syncer) = world();
    assert_eq!(
        find_bookmark_diff(&vec![source("feature", 2)], &target, &syncer),
        vec![BookmarkDiff::MissingInTarget {
            target_bookmark: bookmark("feature"),
            source_cs_id: cs(2)
        }]
    );
}

#[test]
fn bookmark_that_points_elsewhere_is_reported() {
    let (target, syncer) = world();
    assert_eq!(
        find_bookmark_diff(&vec![source("stale", 2)], &target, &syncer),
        vec![BookmarkDiff::InconsistentValue {
            target_bookmark: bookmark("stale"),
            target_cs_id: cs(101),
            source_cs_id: Some(cs(2)),
        }]
    );
}

#[test]
fn bookmark_of_a_commit_without_target_is_reported() {
    let (target, syncer) = world();
    assert_eq!(
        find_bookmark_diff(&vec![source("master", 9), source("stale", 3)], &target, &syncer),
        vec![
            BookmarkDiff::NoSyncOutcome { target_bookmark: bookmark("master") },
            BookmarkDiff::NoSyncOutcome { target_bookmark: bookmark("stale") },
        ]
    );
}

#[test]
fn differences_come_in_the_order_of_the_bookmarks() {
    let (target, syncer) = world();
    let bookmarks =
        vec![source("feature", 2), source("master", 1), source("stale", 2), source("other", 9)];
    assert_eq!(
        find_bookmark_diff(&bookmarks, &target, &syncer),
        vec![
            BookmarkDiff::MissingInTarget {
                target_bookmark: bookmark("feature"),
                source_cs_id: cs(2)
            },
            BookmarkDiff::InconsistentValue {
                target_bookmark: bookmark("stale"),
                target_cs_id: cs(101),
                source_cs_id: Some(cs(2)),
            },
            BookmarkDiff::NoSyncOutcome { target_bookmark: bookmark("other") },
        ]
    );
}
