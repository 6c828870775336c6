//! What a checkout reports and decides: the summary of what it did, and
//! the threshold at which the tree state is repacked.

use vstd::prelude::*;
use vstd::string::StringExecFns;

verus! {

/// How many files a checkout touched, by what was done to them.
#[derive(Clone, Copy, Debug, PartialEq, Eq, Structural)]
pub struct CheckoutStats {
    pub updated: usize,
    pub merged: usize,
    pub removed: usize,
    pub unresolved: usize,
}

/// The character of a decimal digit.
pub open spec fn digit(d: nat) -> char {
    if d == 0 {
        '0'
    } else if d == 1 {
        '1'
    } else if d == 2 {
        '2'
    } else if d == 3 {
        '3'
    } else if d == 4 {
        '4'
    } else if d == 5 {
        '5'
    } else if d == 6 {
        '6'
    } else if d == 7 {
        '7'
    } else if d == 8 {
        '8'
    } else {
        '9'
    }
}

/// The decimal numeral of `n`, without leading zeros.
pub open spec fn decimal(n: nat) -> Seq<char>
    decreases n,
{
    if n < 10 {
        seq![digit(n)]
    } else {
        decimal(n / 10).push(digit(n % 10))
    }
}

/// The part of the summary that speaks of `val` files: its numeral, then
/// " files " and what was done to them.
pub open spec fn stats_item(val: nat, name: Seq<char>) -> Seq<char> {
    decimal(val) + " files "@ + name
}

/// The summary `text` with the item for `val` added. Nothing is said of no
/// files, and items are parted by ", ".
pub open spec fn with_stats_item(text: Seq<char>, val: nat, name: Seq<char>) -> Seq<char> {
    if val == 0 {
        text
    } else if text.len() == 0 {
        stats_item(val, name)
    } else {
        text + ", "@ + stats_item(val, name)
    }
}

/// The summary of a checkout.
pub open spec fn stats_text(stats: CheckoutStats) -> Seq<char> {
    with_stats_item(
        with_stats_item(
            with_stats_item(
                with_stats_item(Seq::empty(), stats.updated as nat, "updated"@),
                stats.merged as nat,
                "merged"@,
            ),
            stats.removed as nat,
            "removed"@,
        ),
        stats.unresolved as nat,
        "unresolved"@,
    )
}

fn digit_str(d: usize) -> (res: &'static str)
    requires
        d < 10,
    ensures
        res@ == seq![digit(d as nat)],
{
    proof {
        reveal_strlit("0");
        reveal_strlit("1");
        reveal_strlit("2");
        reveal_strlit("3");
        reveal_strlit("4");
        reveal_strlit("5");
        reveal_strlit("6");
        reveal_strlit("7");
        reveal_strlit("8");
        reveal_strlit("9");
    }
    let res = if d == 0 {
        "0"
    } else if d == 1 {
        "1"
    } else if d == 2 {
        "2"
    } else if d == 3 {
        "3"
    } else if d == 4 {
        "4"
    } else if d == 5 {
        "5"
    } else if d == 6 {
        "6"
    } else if d == 7 {
        "7"
    } else if d == 8 {
        "8"
    } else {
        "9"
    };
    assert(res@ =~= seq![digit(d as nat)]);
    res
}

/// The decimal numeral of `n`.
pub fn decimal_string(n: usize) -> (res: String)
    ensures
        res@ == decimal(n as nat),
        res@.len() > 0,
    decreases n,
{
    if n < 10 {
        String::from_str(digit_str(n))
    } else {
        let mut res = decimal_string(n / 10);
        res.append(digit_str(n % 10));
        assert(res@ =~= decimal((n / 10) as nat).push(digit((n % 10) as nat)));
        res
    }
}

fn push_stats_item(text: &mut String, val: usize, name: &str)
    ensures
        final(text)@ == with_stats_item(old(text)@, val as nat, name@),
{
    if val == 0 {
        return ;
    }
    if text.as_str().unicode_len() != 0 {
        text.append(", ");
    }
    let numeral = decimal_string(val);
    text.append(numeral.as_str());
    text.append(" files ");
    text.append(name);
    assert(text@ =~= with_stats_item(old(text)@, val as nat, name@));
}

impl CheckoutStats {
    /// The summary of the checkout for a reader: for each kind of change
    /// that touched files, how many files, as in "3 files updated, 1 files
    /// removed". A checkout that touched nothing has an empty summary.
    pub fn to_string(&self) -> (res: String)
        ensures
            res@ == stats_text(*self),
    {
        let mut text = String::new();
        push_stats_item(&mut text, self.updated, "updated");
        push_stats_item(&mut text, self.merged, "merged");
        push_stats_item(&mut text, self.removed, "removed");
        push_stats_item(&mut text, self.unresolved, "unresolved");
        text
    }
}

/// The size at which the tree state is repacked: nothing is set while the
/// tree is no larger than `min_repack_threshold` or no factor is
/// configured; else it is the size of the tree times the factor.
pub open spec fn repack_threshold_of(
    tree_root_id: u64,
    min_repack_threshold: u64,
    repack_factor: Option<u64>,
) -> int {
    if tree_root_id > min_repack_threshold && repack_factor.is_some() {
        tree_root_id * repack_factor.unwrap()
    } else {
        0
    }
}

/// The repack threshold to record with the tree state.
pub fn repack_threshold(tree_root_id: u64, min_repack_threshold: u64, repack_factor: Option<u64>) -> (res:
    u64)
    requires
        repack_threshold_of(tree_root_id, min_repack_threshold, repack_factor) <= u64::MAX,
    ensures
        res == repack_threshold_of(tree_root_id, min_repack_threshold, repack_factor),
{
    let mut threshold: u64 = 0;
    if tree_root_id > min_repack_threshold {
        if let Some(factor) = repack_factor {
            threshold = tree_root_id * factor;
        }
    }
    threshold
}

/// The repack threshold, or `None` where it does not fit into 64 bits.
pub fn checked_repack_threshold(
    tree_root_id: u64,
    min_repack_threshold: u64,
    repack_factor: Option<u64>,
) -> (res: Option<u64>)
    ensures
        match res {
            Some(threshold) => threshold == repack_threshold_of(
                tree_root_id,
                min_repack_threshold,
                repack_factor,
            ),
            None => repack_threshold_of(tree_root_id, min_repack_threshold, repack_factor)
                > u64::MAX,
        },
{
    if tree_root_id > min_repack_threshold {
        if let Some(factor) = repack_factor {
            return tree_root_id.checked_mul(factor);
        }
    }
    Some(0)
}

} // verus!
