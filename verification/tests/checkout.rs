use x_repo_sync::checkout::{
    checked_repack_threshold, decimal_string, repack_threshold, CheckoutStats,
};
use x_repo_sync::edenfs::{
    abort_on_eden_conflict_error, edenfs_redirect_fixup, is_edenfs_redirect_okay,
    CheckoutConflict, ConflictType, EdenConflictError, RedirectFixup, Redirection,
};

fn stats(updated: usize, merged: usize, removed: usize, unresolved: usize) -> CheckoutStats {
    CheckoutStats { updated, merged, removed, unresolved }
}

fn conflict(path: &str, conflict_type: ConflictType, message: &str) -> CheckoutConflict {
    CheckoutConflict { path: path.to_string(), conflict_type, message: message.to_string() }
}

fn redirection(kind: &str, found: bool, is_symlink: bool, device: u64) -> Redirection {
    Redirection { kind: kind.to_string(), found, is_symlink, device }
}

#[test]
fn stats_of_nothing_are_empty() {
    assert_eq!(stats(0, 0, 0, 0).to_string(), "");
}

#[test]
fn stats_name_each_kind_that_touched_files() {
    assert_eq!(stats(3, 0, 0, 0).to_string(), "3 files updated");
    assert_eq!(stats(0, 2, 0, 0).to_string(), "2 files merged");
    assert_eq!(stats(0, 0, 1, 0).to_string(), "1 files removed");
    assert_eq!(stats(0, 0, 0, 12).to_string(), "12 files unresolved");
}

#[test]
fn stats_are_parted_by_commas() {
    assert_eq!(stats(3, 0, 1, 0).to_string(), "3 files updated, 1 files removed");
    assert_eq!(
        stats(10, 20, 30, 40).to_string(),
        "10 files updated, 20 files merged, 30 files removed, 40 files unresolved"
    );
    assert_eq!(stats(0, 5, 0, 7).to_string(), "5 files merged, 7 files unresolved");
}

#[test]
fn decimal_numerals() {
    assert_eq!(decimal_string(0), "0");
    assert_eq!(decimal_string(7), "7");
    assert_eq!(decimal_string(10), "10");
    assert_eq!(decimal_string(1234567890), "1234567890");
    assert_eq!(decimal_string(usize::MAX), usize::MAX.to_string());
}

#[test]
fn no_threshold_for_a_small_tree() {
    assert_eq!(repack_threshold(100, 100, Some(3)), 0);
    assert_eq!(repack_threshold(5, 100, Some(3)), 0);
    assert_eq!(checked_repack_threshold(5, 100, Some(3)), Some(0));
}

#[test]
fn no_threshold_without_a_factor() {
    assert_eq!(repack_threshold(1000, 100, None), 0);
    assert_eq!(checked_repack_threshold(u64::MAX, 0, None), Some(0));
}

#[test]
fn threshold_is_size_times_factor() {
    assert_eq!(repack_threshold(1000, 100, Some(3)), 3000);
    assert_eq!(repack_threshold(101, 100, Some(1)), 101);
    assert_eq!(checked_repack_threshold(1000, 100, Some(3)), Some(3000));
}

#[test]
fn threshold_that_does_not_fit() {
    assert_eq!(checked_repack_threshold(u64::MAX, 100, Some(2)), None);
    assert_eq!(checked_repack_threshold(u64::MAX, 100, Some(1)), Some(u64::MAX));
}

#[test]
fn conflicts_are_ignored_unless_asked_for() {
    let conflicts = vec![conflict("a", ConflictType::Error, "boom")];
    assert_eq!(abort_on_eden_conflict_error(false, conflicts), Ok(()));
}

#[test]
fn first_error_conflict_aborts() {
    let conflicts = vec![
        conflict("a", ConflictType::ModifiedModified, "changed"),
        conflict("b", ConflictType::Error, "boom"),
        conflict("c", ConflictType::Error, "bang"),
    ];
    assert_eq!(
        abort_on_eden_conflict_error(true, conflicts),
        Err(EdenConflictError { path: "b".to_string(), message: "boom".to_string() })
    );
}

#[test]
fn other_conflicts_do_not_abort() {
    let conflicts = vec![
        conflict("a", ConflictType::ModifiedModified, "changed"),
        conflict("b", ConflictType::UntrackedAdded, "added"),
        conflict("c", ConflictType::DirectoryNotEmpty, "full"),
    ];
    assert_eq!(abort_on_eden_conflict_error(true, conflicts), Ok(()));
    assert_eq!(abort_on_eden_conflict_error(true, vec![]), Ok(()));
}

#[test]
fn no_redirections_need_no_fixup() {
    assert_eq!(is_edenfs_redirect_okay(&vec![], 1, false), None);
    assert_eq!(is_edenfs_redirect_okay(&vec![], 1, true), None);
    assert_eq!(edenfs_redirect_fixup(Some(None)), RedirectFixup::Nothing);
}

#[test]
fn symlink_redirection_has_to_be_a_symlink() {
    assert_eq!(
        is_edenfs_redirect_okay(&vec![redirection("symlink", true, true, 1)], 1, false),
        Some(true)
    );
    assert_eq!(
        is_edenfs_redirect_okay(&vec![redirection("symlink", true, false, 2)], 1, false),
        Some(false)
    );
}

#[test]
fn bind_redirection_has_to_lie_on_another_device() {
    assert_eq!(
        is_edenfs_redirect_okay(&vec![redirection("bind", true, false, 2)], 1, false),
        Some(true)
    );
    assert_eq!(
        is_edenfs_redirect_okay(&vec![redirection("bind", true, false, 1)], 1, false),
        Some(false)
    );
}

#[test]
fn on_windows_every_redirection_is_a_symlink() {
    assert_eq!(
        is_edenfs_redirect_okay(&vec![redirection("bind", true, false, 2)], 1, true),
        Some(false)
    );
    assert_eq!(
        is_edenfs_redirect_okay(&vec![redirection("bind", true, true, 1)], 1, true),
        Some(true)
    );
}

#[test]
fn place_that_was_not_found_is_passed_over() {
    assert_eq!(
        is_edenfs_redirect_okay(&vec![redirection("bind", false, false, 1)], 1, false),
        Some(true)
    );
    assert_eq!(
        is_edenfs_redirect_okay(
            &vec![redirection("bind", false, false, 1), redirection("symlink", true, false, 1)],
            1,
            false
        ),
        Some(false)
    );
}

#[test]
fn one_bad_redirection_spoils_all() {
    let redirections = vec![
        redirection("symlink", true, true, 1),
        redirection("bind", true, false, 1),
        redirection("bind", true, false, 2),
    ];
    assert_eq!(is_edenfs_redirect_okay(&redirections, 1, false), Some(false));
}

#[test]
fn fixup_runs_in_the_background_only_when_all_is_well() {
    assert_eq!(edenfs_redirect_fixup(Some(Some(true))), RedirectFixup::Background);
    assert_eq!(edenfs_redirect_fixup(Some(Some(false))), RedirectFixup::Foreground);
    assert_eq!(edenfs_redirect_fixup(None), RedirectFixup::Foreground);
}
