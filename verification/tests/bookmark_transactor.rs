use x_repo_sync::bookmarks::{
    delete_bookmark, delete_result, delete_transaction, move_or_create_bookmark,
    move_or_create_result, move_or_create_transaction, BookmarkTransaction, Bookmarks,
};
use x_repo_sync::types::{BookmarkKey, ChangesetId, SyncError};

fn cs(n: u64) -> ChangesetId {
    ChangesetId { w0: n, w1: 0, w2: 0, w3: 0 }
}

fn bookmark(name: &str) -> BookmarkKey {
    BookmarkKey { name: name.to_string() }
}

#[test]
fn absent_bookmark_is_created() {
    let mut repo = Bookmarks::new();
    assert_eq!(repo.get(&bookmark("feature")), None);
    assert_eq!(move_or_create_bookmark(&mut repo, &bookmark("feature"), cs(1)), Ok(()));
    assert_eq!(repo.get(&bookmark("feature")), Some(cs(1)));
}

#[test]
fn present_bookmark_is_moved() {
    let mut repo = Bookmarks::new();
    move_or_create_bookmark(&mut repo, &bookmark("feature"), cs(1)).unwrap();
    move_or_create_bookmark(&mut repo, &bookmark("other"), cs(5)).unwrap();
    assert_eq!(move_or_create_bookmark(&mut repo, &bookmark("feature"), cs(2)), Ok(()));
    assert_eq!(repo.get(&bookmark("feature")), Some(cs(2)));
    assert_eq!(repo.get(&bookmark("other")), Some(cs(5)));
}

#[test]
fn present_bookmark_is_deleted() {
    let mut repo = Bookmarks::new();
    move_or_create_bookmark(&mut repo, &bookmark("a"), cs(1)).unwrap();
    move_or_create_bookmark(&mut repo, &bookmark("b"), cs(2)).unwrap();
    move_or_create_bookmark(&mut repo, &bookmark("c"), cs(3)).unwrap();
    assert_eq!(delete_bookmark(&mut repo, &bookmark("b")), Ok(()));
    assert_eq!(repo.get(&bookmark("a")), Some(cs(1)));
    assert_eq!(repo.get(&bookmark("b")), None);
    assert_eq!(repo.get(&bookmark("c")), Some(cs(3)));
}

#[test]
fn deleting_an_absent_bookmark_is_a_no_op() {
    let mut repo = Bookmarks::new();
    move_or_create_bookmark(&mut repo, &bookmark("a"), cs(1)).unwrap();
    assert_eq!(delete_bookmark(&mut repo, &bookmark("gone")), Ok(()));
    assert_eq!(repo.get(&bookmark("a")), Some(cs(1)));
}

#[test]
fn planned_transaction_follows_the_value_read() {
    assert_eq!(
        move_or_create_transaction(&bookmark("m"), None, cs(2)),
        BookmarkTransaction::Create { bookmark: bookmark("m"), new_cs_id: cs(2) }
    );
    assert_eq!(
        move_or_create_transaction(&bookmark("m"), Some(cs(1)), cs(2)),
        BookmarkTransaction::Update { bookmark: bookmark("m"), new_cs_id: cs(2), old_cs_id: cs(1) }
    );
    assert_eq!(
        delete_transaction(&bookmark("m"), Some(cs(1))),
        Some(BookmarkTransaction::Delete { bookmark: bookmark("m"), old_cs_id: cs(1) })
    );
    assert_eq!(delete_transaction(&bookmark("m"), None), None);
}

#[test]
fn create_loses_when_the_bookmark_exists() {
    let mut repo = Bookmarks::new();
    move_or_create_bookmark(&mut repo, &bookmark("m"), cs(1)).unwrap();
    let txn = BookmarkTransaction::Create { bookmark: bookmark("m"), new_cs_id: cs(2) };
    assert!(!repo.commit(&txn));
    assert_eq!(repo.get(&bookmark("m")), Some(cs(1)));
}

#[test]
fn update_loses_when_the_bookmark_moved_meanwhile() {
    let mut repo = Bookmarks::new();
    move_or_create_bookmark(&mut repo, &bookmark("m"), cs(1)).unwrap();
    let stale = move_or_create_transaction(&bookmark("m"), Some(cs(1)), cs(3));
    // another writer moves the bookmark first
    move_or_create_bookmark(&mut repo, &bookmark("m"), cs(2)).unwrap();
    assert!(!repo.commit(&stale));
    assert_eq!(repo.get(&bookmark("m")), Some(cs(2)));
    let absent = BookmarkTransaction::Update {
        bookmark: bookmark("none"),
        new_cs_id: cs(3),
        old_cs_id: cs(1),
    };
    assert!(!repo.commit(&absent));
    assert_eq!(repo.get(&bookmark("none")), None);
}

#[test]
fn delete_loses_when_the_bookmark_moved_meanwhile() {
    let mut repo = Bookmarks::new();
    move_or_create_bookmark(&mut repo, &bookmark("m"), cs(2)).unwrap();
    let stale = BookmarkTransaction::Delete { bookmark: bookmark("m"), old_cs_id: cs(1) };
    assert!(!repo.commit(&stale));
    assert_eq!(repo.get(&bookmark("m")), Some(cs(2)));
    let fresh = BookmarkTransaction::Delete { bookmark: bookmark("m"), old_cs_id: cs(2) };
    assert!(repo.commit(&fresh));
    assert_eq!(repo.get(&bookmark("m")), None);
    assert!(!repo.commit(&fresh));
}

#[test]
fn transactions_that_apply_take_effect() {
    let mut repo = Bookmarks::new();
    assert!(repo.commit(&BookmarkTransaction::Create { bookmark: bookmark("m"), new_cs_id: cs(1) }));
    assert_eq!(repo.get(&bookmark("m")), Some(cs(1)));
    assert!(repo.commit(&BookmarkTransaction::Update {
        bookmark: bookmark("m"),
        new_cs_id: cs(2),
        old_cs_id: cs(1)
    }));
    assert_eq!(repo.get(&bookmark("m")), Some(cs(2)));
}

#[test]
fn lost_transaction_surfaces_as_an_error() {
    assert_eq!(move_or_create_result(true), Ok(()));
    assert_eq!(move_or_create_result(false), Err(SyncError::BookmarkMoveFailed));
    assert_eq!(delete_result(true), Ok(()));
    assert_eq!(delete_result(false), Err(SyncError::BookmarkDeleteFailed));
}

#[test]
fn bookmark_keys_compare_by_name() {
    assert!(bookmark("master").same_as(&bookmark("master")));
    assert!(!bookmark("master").same_as(&bookmark("main")));
    assert_eq!(bookmark("master").clone(), bookmark("master"));
}
