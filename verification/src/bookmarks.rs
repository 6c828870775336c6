//! The bookmarks of the target repository and the transactions that change
//! them. A transaction names the value it expects to replace, and takes
//! effect only where the bookmark still has that value.

use vstd::prelude::*;
use crate::types::{BookmarkKey, ChangesetId, SyncError};

verus! {

/// One bookmark and the commit it points to.
#[derive(Debug)]
pub struct BookmarkEntry {
    pub key: BookmarkKey,
    pub cs_id: ChangesetId,
}

/// A change of one bookmark, applied as a whole or not at all.
#[derive(Debug, PartialEq, Eq)]
pub enum BookmarkTransaction {
    /// Creates a bookmark that does not exist.
    Create { bookmark: BookmarkKey, new_cs_id: ChangesetId },
    /// Moves a bookmark that points to `old_cs_id`.
    Update { bookmark: BookmarkKey, new_cs_id: ChangesetId, old_cs_id: ChangesetId },
    /// Deletes a bookmark that points to `old_cs_id`.
    Delete { bookmark: BookmarkKey, old_cs_id: ChangesetId },
}

/// Mathematical value of a [`BookmarkTransaction`].
pub enum BookmarkTransactionView {
    Create { bookmark: Seq<char>, new_cs_id: ChangesetId },
    Update { bookmark: Seq<char>, new_cs_id: ChangesetId, old_cs_id: ChangesetId },
    Delete { bookmark: Seq<char>, old_cs_id: ChangesetId },
}

impl View for BookmarkTransaction {
    type V = BookmarkTransactionView;

    open spec fn view(&self) -> BookmarkTransactionView {
        match self {
            BookmarkTransaction::Create { bookmark, new_cs_id } => BookmarkTransactionView::Create {
                bookmark: bookmark@,
                new_cs_id: *new_cs_id,
            },
            BookmarkTransaction::Update {
                bookmark,
                new_cs_id,
                old_cs_id,
            } => BookmarkTransactionView::Update {
                bookmark: bookmark@,
                new_cs_id: *new_cs_id,
                old_cs_id: *old_cs_id,
            },
            BookmarkTransaction::Delete { bookmark, old_cs_id } => BookmarkTransactionView::Delete {
                bookmark: bookmark@,
                old_cs_id: *old_cs_id,
            },
        }
    }
}

/// Whether the bookmarks are as the transaction expects them.
pub open spec fn applies(
    bookmarks: Map<Seq<char>, ChangesetId>,
    txn: BookmarkTransactionView,
) -> bool {
    match txn {
        BookmarkTransactionView::Create { bookmark, new_cs_id } => !bookmarks.dom().contains(
            bookmark,
        ),
        BookmarkTransactionView::Update { bookmark, new_cs_id, old_cs_id } => {
            bookmarks.dom().contains(bookmark) && bookmarks[bookmark] == old_cs_id
        },
        BookmarkTransactionView::Delete { bookmark, old_cs_id } => bookmarks.dom().contains(
            bookmark,
        ) && bookmarks[bookmark] == old_cs_id,
    }
}

/// The bookmarks after the transaction was offered: changed where it
/// applies, untouched where it does not.
pub open spec fn committed(
    bookmarks: Map<Seq<char>, ChangesetId>,
    txn: BookmarkTransactionView,
) -> Map<Seq<char>, ChangesetId> {
    if !applies(bookmarks, txn) {
        bookmarks
    } else {
        match txn {
            BookmarkTransactionView::Create { bookmark, new_cs_id } => bookmarks.insert(
                bookmark,
                new_cs_id,
            ),
            BookmarkTransactionView::Update { bookmark, new_cs_id, old_cs_id } => bookmarks.insert(
                bookmark,
                new_cs_id,
            ),
            BookmarkTransactionView::Delete { bookmark, old_cs_id } => bookmarks.remove(bookmark),
        }
    }
}

/// The transaction that makes `bookmark` point to `cs_id`, given the value
/// that was read for it: a creation where it does not exist, else a move
/// that expects the value read.
pub open spec fn move_or_create(
    bookmark: Seq<char>,
    current: Option<ChangesetId>,
    cs_id: ChangesetId,
) -> BookmarkTransactionView {
    match current {
        Some(old_cs_id) => BookmarkTransactionView::Update { bookmark, new_cs_id: cs_id, old_cs_id },
        None => BookmarkTransactionView::Create { bookmark, new_cs_id: cs_id },
    }
}

/// Plans the transaction that makes `bookmark` point to `cs_id`, where
/// `current` is the value read for the bookmark.
pub fn move_or_create_transaction(
    bookmark: &BookmarkKey,
    current: Option<ChangesetId>,
    cs_id: ChangesetId,
) -> (res: BookmarkTransaction)
    ensures
        res@ == move_or_create(bookmark@, current, cs_id),
{
    match current {
        Some(old_cs_id) => BookmarkTransaction::Update {
            bookmark: bookmark.clone(),
            new_cs_id: cs_id,
            old_cs_id,
        },
        None => BookmarkTransaction::Create { bookmark: bookmark.clone(), new_cs_id: cs_id },
    }
}

/// Plans the transaction that deletes `bookmark`, where `current` is the
/// value read for it. A bookmark that does not exist needs none.
pub fn delete_transaction(bookmark: &BookmarkKey, current: Option<ChangesetId>) -> (res: Option<
    BookmarkTransaction,
>)
    ensures
        match current {
            Some(old_cs_id) => res matches Some(txn) && txn@ == (BookmarkTransactionView::Delete {
                bookmark: bookmark@,
                old_cs_id,
            }),
            None => res.is_none(),
        },
{
    match current {
        Some(old_cs_id) => Some(
            BookmarkTransaction::Delete { bookmark: bookmark.clone(), old_cs_id },
        ),
        None => None,
    }
}

/// What a transaction that moved or created a bookmark came to: a
/// transaction that did not take effect is a failure, never tried again here.
pub fn move_or_create_result(committed: bool) -> (res: Result<(), SyncError>)
    ensures
        committed ==> res == Ok::<(), SyncError>(()),
        !committed ==> res == Err::<(), SyncError>(SyncError::BookmarkMoveFailed),
{
    if committed {
        Ok(())
    } else {
        Err(SyncError::BookmarkMoveFailed)
    }
}

/// What a transaction that deleted a bookmark came to: a transaction that
/// did not take effect is a failure, never tried again here.
pub fn delete_result(committed: bool) -> (res: Result<(), SyncError>)
    ensures
        committed ==> res == Ok::<(), SyncError>(()),
        !committed ==> res == Err::<(), SyncError>(SyncError::BookmarkDeleteFailed),
{
    if committed {
        Ok(())
    } else {
        Err(SyncError::BookmarkDeleteFailed)
    }
}

/// No two entries speak of the same bookmark.
pub open spec fn names_unique(entries: Seq<BookmarkEntry>) -> bool {
    forall|i: int, j: int|
        0 <= i < entries.len() && 0 <= j < entries.len() && (#[trigger] entries[i]).key@ == (
        #[trigger] entries[j]).key@ ==> i == j
}

/// Whether an entry speaks of the bookmark `name`.
pub open spec fn has_entry(entries: Seq<BookmarkEntry>, name: Seq<char>) -> bool {
    exists|i: int| 0 <= i < entries.len() && (#[trigger] entries[i]).key@ == name
}

/// The position of an entry that speaks of the bookmark `name`.
pub open spec fn entry_of(entries: Seq<BookmarkEntry>, name: Seq<char>) -> int {
    choose|i: int| 0 <= i < entries.len() && (#[trigger] entries[i]).key@ == name
}

/// The bookmarks that `entries` hold, by name.
pub open spec fn bookmarks_of(entries: Seq<BookmarkEntry>) -> Map<Seq<char>, ChangesetId> {
    Map::new(
        |name: Seq<char>| has_entry(entries, name),
        |name: Seq<char>| entries[entry_of(entries, name)].cs_id,
    )
}

/// With unique names, each entry gives the value of its bookmark.
pub proof fn lemma_bookmarks_of(entries: Seq<BookmarkEntry>)
    requires
        names_unique(entries),
    ensures
        forall|i: int|
            0 <= i < entries.len() ==> bookmarks_of(entries).dom().contains(
                (#[trigger] entries[i]).key@,
            ) && bookmarks_of(entries)[entries[i].key@] == entries[i].cs_id,
{
    assert forall|i: int| 0 <= i < entries.len() implies bookmarks_of(entries).dom().contains(
        (#[trigger] entries[i]).key@,
    ) && bookmarks_of(entries)[entries[i].key@] == entries[i].cs_id by {
        let name = entries[i].key@;
        assert(has_entry(entries, name));
        assert(entries[entry_of(entries, name)].key@ == entries[i].key@);
    }
}

/// The bookmarks of one repository.
#[derive(Debug)]
pub struct Bookmarks {
    entries: Vec<BookmarkEntry>,
}

impl View for Bookmarks {
    type V = Map<Seq<char>, ChangesetId>;

    closed spec fn view(&self) -> Map<Seq<char>, ChangesetId> {
        bookmarks_of(self.entries@)
    }
}

impl Bookmarks {
    /// No bookmark has two entries.
    pub closed spec fn wf(&self) -> bool {
        names_unique(self.entries@)
    }

    /// A repository without bookmarks.
    pub fn new() -> (res: Bookmarks)
        ensures
            res.wf(),
            res@ == Map::<Seq<char>, ChangesetId>::empty(),
    {
        let res = Bookmarks { entries: Vec::new() };
        assert(res@ =~= Map::<Seq<char>, ChangesetId>::empty());
        res
    }

    fn position(&self, bookmark: &BookmarkKey) -> (res: Option<usize>)
        requires
            self.wf(),
        ensures
            match res {
                Some(i) => i < self.entries@.len() && self.entries@[i as int].key@ == bookmark@
                    && self@.dom().contains(bookmark@) && self@[bookmark@]
                    == self.entries@[i as int].cs_id,
                None => !self@.dom().contains(bookmark@) && !has_entry(self.entries@, bookmark@),
            },
    {
        let mut i: usize = 0;
        while i < self.entries.len()
            invariant
                self.wf(),
                i <= self.entries.len(),
                forall|j: int| 0 <= j < i ==> (#[trigger] self.entries@[j]).key@ != bookmark@,
            decreases self.entries.len() - i,
        {
            if self.entries[i].key.same_as(bookmark) {
                proof {
                    lemma_bookmarks_of(self.entries@);
                }
                return Some(i);
            }
            i += 1;
        }
        None
    }

    /// The commit that `bookmark` points to, if the bookmark exists.
    pub fn get(&self, bookmark: &BookmarkKey) -> (res: Option<ChangesetId>)
        requires
            self.wf(),
        ensures
            res.is_some() == self@.dom().contains(bookmark@),
            res matches Some(cs_id) ==> cs_id == self@[bookmark@],
    {
        match self.position(bookmark) {
            Some(i) => Some(self.entries[i].cs_id),
            None => None,
        }
    }

    fn put(&mut self, bookmark: &BookmarkKey, cs_id: ChangesetId)
        requires
            old(self).wf(),
        ensures
            final(self).wf(),
            final(self)@ == old(self)@.insert(bookmark@, cs_id),
    {
        let ghost before = self.entries@;
        match self.position(bookmark) {
            Some(i) => {
                self.entries.set(i, BookmarkEntry { key: bookmark.clone(), cs_id });
                let ghost after = self.entries@;
                assert(names_unique(after)) by {
                    assert forall|a: int, b: int|
                        0 <= a < after.len() && 0 <= b < after.len() && (#[trigger] after[a]).key@
                            == (#[trigger] after[b]).key@ implies a == b by {
                        assert(after[a].key@ == before[a].key@);
                        assert(after[b].key@ == before[b].key@);
                    }
                }
                proof {
                    lemma_bookmarks_of(before);
                    lemma_bookmarks_of(after);
                }
                assert(bookmarks_of(after) =~= bookmarks_of(before).insert(bookmark@, cs_id)) by {
                    assert forall|name: Seq<char>|
                        has_entry(after, name) <==> has_entry(before, name) || name
                            == bookmark@ by {
                        if has_entry(after, name) {
                            let k = entry_of(after, name);
                            assert(before[k].key@ == name);
                        }
                        if has_entry(before, name) {
                            let k = entry_of(before, name);
                            assert(after[k].key@ == name);
                        }
                        if name == bookmark@ {
                            assert(after[i as int].key@ == name);
                        }
                    }
                    assert forall|name: Seq<char>| has_entry(after, name) implies bookmarks_of(
                        after,
                    )[name] == bookmarks_of(before).insert(bookmark@, cs_id)[name] by {
                        let k = entry_of(after, name);
                        assert(after[k].key@ == name);
                        assert(before[k].key@ == name);
                        if name != bookmark@ {
                            assert(k != i);
                            assert(after[k].cs_id == before[k].cs_id);
                        } else {
                            assert(after[k].key@ == after[i as int].key@);
                        }
                    }
                }
            },
            None => {
                self.entries.push(BookmarkEntry { key: bookmark.clone(), cs_id });
                let ghost after = self.entries@;
                assert(names_unique(after)) by {
                    assert forall|a: int, b: int|
                        0 <= a < after.len() && 0 <= b < after.len() && (#[trigger] after[a]).key@
                            == (#[trigger] after[b]).key@ implies a == b by {
                        if a < before.len() {
                            assert(after[a].key@ == before[a].key@);
                        }
                        if b < before.len() {
                            assert(after[b].key@ == before[b].key@);
                        }
                    }
                }
                proof {
                    lemma_bookmarks_of(before);
                    lemma_bookmarks_of(after);
                }
                assert(bookmarks_of(after) =~= bookmarks_of(before).insert(bookmark@, cs_id)) by {
                    assert forall|name: Seq<char>|
                        has_entry(after, name) <==> has_entry(before, name) || name
                            == bookmark@ by {
                        if has_entry(after, name) {
                            let k = entry_of(after, name);
                            if k < before.len() {
                                assert(before[k].key@ == name);
                            }
                        }
                        if has_entry(before, name) {
                            let k = entry_of(before, name);
                            assert(after[k].key@ == name);
                        }
                        if name == bookmark@ {
                            assert(after[after.len() - 1].key@ == name);
                        }
                    }
                    assert forall|name: Seq<char>| has_entry(after, name) implies bookmarks_of(
                        after,
                    )[name] == bookmarks_of(before).insert(bookmark@, cs_id)[name] by {
                        let k = entry_of(after, name);
                        assert(after[k].key@ == name);
                        if k < before.len() {
                            assert(before[k].key@ == name);
                            assert(after[k].cs_id == before[k].cs_id);
                        }
                    }
                }
            },
        }
    }

    fn remove(&mut self, bookmark: &BookmarkKey)
        requires
            old(self).wf(),
        ensures
            final(self).wf(),
            final(self)@ == old(self)@.remove(bookmark@),
    {
        let ghost before = self.entries@;
        match self.position(bookmark) {
            Some(i) => {
                self.entries.remove(i);
                let ghost after = self.entries@;
                assert(after == before.remove(i as int));
                assert forall|a: int| 0 <= a < after.len() implies (#[trigger] after[a]) == before[if a
                    < i {
                    a
                } else {
                    a + 1
                }] by {}
                assert(names_unique(after)) by {
                    assert forall|a: int, b: int|
                        0 <= a < after.len() && 0 <= b < after.len() && (#[trigger] after[a]).key@
                            == (#[trigger] after[b]).key@ implies a == b by {
                        let a0 = if a < i { a } else { a + 1 };
                        let b0 = if b < i { b } else { b + 1 };
                        assert(before[a0].key@ == before[b0].key@);
                    }
                }
                proof {
                    lemma_bookmarks_of(before);
                    lemma_bookmarks_of(after);
                }
                assert(bookmarks_of(after) =~= bookmarks_of(before).remove(bookmark@)) by {
                    assert forall|name: Seq<char>|
                        has_entry(after, name) <==> has_entry(before, name) && name
                            != bookmark@ by {
                        if has_entry(after, name) {
                            let k = entry_of(after, name);
                            let k0 = if k < i { k } else { k + 1 };
                            assert(before[k0].key@ == name);
                            if name == bookmark@ {
                                assert(before[k0].key@ == before[i as int].key@);
                            }
                        }
                        if has_entry(before, name) && name != bookmark@ {
                            let k = entry_of(before, name);
                            let k1 = if k < i { k } else { k - 1 };
                            assert(after[k1].key@ == name);
                        }
                    }
                    assert forall|name: Seq<char>| has_entry(after, name) implies bookmarks_of(
                        after,
                    )[name] == bookmarks_of(before).remove(bookmark@)[name] by {
                        let k = entry_of(after, name);
                        let k0 = if k < i { k } else { k + 1 };
                        assert(after[k].key@ == name);
                        assert(before[k0].key@ == name);
                    }
                }
            },
            None => {
                assert(bookmarks_of(before) =~= bookmarks_of(before).remove(bookmark@));
            },
        }
    }

    /// Offers a transaction. It takes effect, and `true` is returned, exactly
    /// where the bookmark is as the transaction expects it. Otherwise
    /// nothing changes.
    pub fn commit(&mut self, txn: &BookmarkTransaction) -> (res: bool)
        requires
            old(self).wf(),
        ensures
            final(self).wf(),
            res == applies(old(self)@, txn@),
            final(self)@ == committed(old(self)@, txn@),
    {
        match txn {
            BookmarkTransaction::Create { bookmark, new_cs_id } => {
                match self.get(bookmark) {
                    Some(_) => false,
                    None => {
                        self.put(bookmark, *new_cs_id);
                        true
                    },
                }
            },
            BookmarkTransaction::Update { bookmark, new_cs_id, old_cs_id } => {
                match self.get(bookmark) {
                    Some(current) => {
                        if current == *old_cs_id {
                            self.put(bookmark, *new_cs_id);
                            true
                        } else {
                            false
                        }
                    },
                    None => false,
                }
            },
            BookmarkTransaction::Delete { bookmark, old_cs_id } => {
                match self.get(bookmark) {
                    Some(current) => {
                        if current == *old_cs_id {
                            self.remove(bookmark);
                            true
                        } else {
                            false
                        }
                    },
                    None => false,
                }
            },
        }
    }
}

/// Makes `bookmark` point to `cs_id`: reads its value, creates it where it
/// does not exist, and moves it otherwise, in one transaction that expects
/// the value read.
pub fn move_or_create_bookmark(repo: &mut Bookmarks, bookmark: &BookmarkKey, cs_id: ChangesetId) -> (res:
    Result<(), SyncError>)
    requires
        old(repo).wf(),
    ensures
        final(repo).wf(),
        res == Ok::<(), SyncError>(()),
        final(repo)@ == old(repo)@.insert(bookmark@, cs_id),
{
    let maybe_bookmark_val = repo.get(bookmark);
    let book_txn = move_or_create_transaction(bookmark, maybe_bookmark_val, cs_id);
    let res = repo.commit(&book_txn);
    move_or_create_result(res)
}

/// Deletes `bookmark`: reads its value and deletes it in one transaction
/// that expects the value read. A bookmark that does not exist is left
/// alone, and that is a success.
pub fn delete_bookmark(repo: &mut Bookmarks, bookmark: &BookmarkKey) -> (res: Result<(), SyncError>)
    requires
        old(repo).wf(),
    ensures
        final(repo).wf(),
        res == Ok::<(), SyncError>(()),
        final(repo)@ == old(repo)@.remove(bookmark@),
{
    let maybe_bookmark_val = repo.get(bookmark);
    match delete_transaction(bookmark, maybe_bookmark_val) {
        Some(book_txn) => {
            let res = repo.commit(&book_txn);
            delete_result(res)
        },
        None => {
            assert(repo@ =~= repo@.remove(bookmark@));
            Ok(())
        },
    }
}

} // verus!
