//! The checkpoint of a tailer and the order in which log entries are
//! taken: one after the other by their ids, and never past an entry that
//! failed.

use vstd::prelude::*;
use crate::types::BookmarkUpdateLogEntry;

verus! {

/// The id of the last log entry that was processed to its end. It is read
/// when a tailer starts, advances after each entry, and never decreases.
#[derive(Debug, PartialEq, Eq)]
pub struct MutableCounter {
    value: Option<u64>,
}

impl View for MutableCounter {
    type V = Option<u64>;

    closed spec fn view(&self) -> Option<u64> {
        self.value
    }
}

/// Whether a counter at `current` may be set to `value`: it has no value
/// yet, or `value` is not smaller than its value.
pub open spec fn may_advance(current: Option<u64>, value: u64) -> bool {
    match current {
        Some(last) => last <= value,
        None => true,
    }
}

impl MutableCounter {
    /// A counter as it was stored.
    pub fn new(value: Option<u64>) -> (res: MutableCounter)
        ensures
            res@ == value,
    {
        MutableCounter { value }
    }

    /// The value of the counter, if it was ever set.
    pub fn get_counter(&self) -> (res: Option<u64>)
        ensures
            res == self@,
    {
        self.value
    }

    /// Sets the counter to `value`, unless this would decrease it. Returns
    /// whether the counter was set.
    pub fn set_counter(&mut self, value: u64) -> (res: bool)
        ensures
            res == may_advance(old(self)@, value),
            res ==> final(self)@ == Some(value),
            !res ==> final(self)@ == old(self)@,
    {
        let advance = match self.value {
            Some(last) => last <= value,
            None => true,
        };
        if advance {
            self.value = Some(value);
        }
        advance
    }
}

/// Moves the checkpoint after the entry `entry_id` was processed with
/// `outcome`. An entry that failed leaves the checkpoint where it was, so
/// that the entry is tried again. An entry that was synced or skipped moves
/// it to the id of the entry. Returns whether the checkpoint moved.
pub fn checkpoint_after_entry<T, E>(
    counter: &mut MutableCounter,
    entry_id: u64,
    outcome: &Result<T, E>,
) -> (res: bool)
    ensures
        res == (outcome.is_ok() && may_advance(old(counter)@, entry_id)),
        res ==> final(counter)@ == Some(entry_id),
        !res ==> final(counter)@ == old(counter)@,
{
    match outcome {
        Ok(_) => counter.set_counter(entry_id),
        Err(_) => false,
    }
}

/// Whether the entry at `i` is still to be processed.
pub open spec fn is_pending(entries: Seq<BookmarkUpdateLogEntry>, counter: Option<u64>, i: int) -> bool {
    &&& 0 <= i < entries.len()
    &&& match counter {
        Some(last) => entries[i].id > last,
        None => true,
    }
}

/// Whether the entry at `i` is the one to process next: it is pending, no
/// pending entry has a smaller id, and of pending entries with its id it is
/// the first.
pub open spec fn is_next(entries: Seq<BookmarkUpdateLogEntry>, counter: Option<u64>, i: int) -> bool {
    &&& is_pending(entries, counter, i)
    &&& forall|j: int| #[trigger]
        is_pending(entries, counter, j) ==> entries[i].id <= entries[j].id
    &&& forall|j: int|
        #[trigger] is_pending(entries, counter, j) && entries[j].id == entries[i].id ==> i <= j
}

/// Finds the log entry to process next: of the entries whose id lies
/// beyond the checkpoint, the one with the smallest id. `None` where every
/// entry was processed.
pub fn next_log_entry(entries: &Vec<BookmarkUpdateLogEntry>, counter: &MutableCounter) -> (res:
    Option<usize>)
    ensures
        match res {
            Some(i) => is_next(entries@, counter@, i as int),
            None => forall|j: int| !is_pending(entries@, counter@, j),
        },
{
    let last = counter.get_counter();
    let mut best: Option<usize> = None;
    let mut i: usize = 0;
    while i < entries.len()
        invariant
            i <= entries.len(),
            last == counter@,
            match best {
                Some(b) => {
                    &&& b < i
                    &&& is_pending(entries@, counter@, b as int)
                    &&& forall|j: int|
                        0 <= j < i && #[trigger] is_pending(entries@, counter@, j)
                            ==> entries@[b as int].id <= entries@[j].id
                    &&& forall|j: int|
                        0 <= j < i && #[trigger] is_pending(entries@, counter@, j)
                            && entries@[j].id == entries@[b as int].id ==> b <= j
                },
                None => forall|j: int| 0 <= j < i ==> !is_pending(entries@, counter@, j),
            },
        decreases entries.len() - i,
    {
        let pending = match last {
            Some(last) => entries[i].id > last,
            None => true,
        };
        if pending {
            match best {
                Some(b) => {
                    if entries[i].id < entries[b].id {
                        best = Some(i);
                    }
                },
                None => {
                    best = Some(i);
                },
            }
        }
        i += 1;
    }
    best
}

} // verus!
