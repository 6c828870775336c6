use x_repo_sync::commit_sync_config_utils::{
    get_bookmark_renamer, get_bookmark_renamers_from_config, get_common_pushrebase_bookmarks,
    get_direction_and_small_repo_id, get_mover, get_movers_from_config,
    get_reverse_bookmark_renamer, get_reverse_mover, get_small_repos_for_version,
    get_strip_git_submodules_by_version, version_exists, BookmarkRenamerRule, CommitSyncConfig,
    CommonCommitSyncConfig, GitSubmodulesChangesAction, MoverRule, SmallRepoCommitSyncConfig,
    SmallRepoPermanentConfig,
};
use x_repo_sync::types::{
    BookmarkKey, CommitSyncConfigVersion, CommitSyncDirection, RepositoryId, SyncError,
};

fn bookmark(name: &str) -> BookmarkKey {
    BookmarkKey { name: name.to_string() }
}

fn common_config() -> CommonCommitSyncConfig {
    CommonCommitSyncConfig {
        common_pushrebase_bookmarks: vec![bookmark("master")],
        small_repos: vec![
            SmallRepoPermanentConfig {
                repo_id: RepositoryId(1),
                bookmark_prefix: "small1/".to_string(),
            },
            SmallRepoPermanentConfig {
                repo_id: RepositoryId(2),
                bookmark_prefix: "small2/".to_string(),
            },
        ],
        large_repo_id: RepositoryId(0),
    }
}

fn version_config() -> CommitSyncConfig {
    CommitSyncConfig {
        large_repo_id: RepositoryId(0),
        common_pushrebase_bookmarks: vec![bookmark("master")],
        small_repos: vec![
            SmallRepoCommitSyncConfig {
                repo_id: RepositoryId(1),
                git_submodules_action: GitSubmodulesChangesAction::Keep,
            },
            SmallRepoCommitSyncConfig {
                repo_id: RepositoryId(2),
                git_submodules_action: GitSubmodulesChangesAction::Expand,
            },
        ],
        version_name: CommitSyncConfigVersion("v1".to_string()),
    }
}

fn invalid(source: i32, target: i32) -> SyncError {
    SyncError::InvalidConfiguration {
        source_repo_id: RepositoryId(source),
        target_repo_id: RepositoryId(target),
    }
}

#[test]
fn direction_small_to_large() {
    let res = get_direction_and_small_repo_id(&common_config(), RepositoryId(1), RepositoryId(0));
    assert_eq!(res, Ok((CommitSyncDirection::SmallToLarge, RepositoryId(1))));
}

#[test]
fn direction_large_to_small() {
    let res = get_direction_and_small_repo_id(&common_config(), RepositoryId(0), RepositoryId(2));
    assert_eq!(res, Ok((CommitSyncDirection::LargeToSmall, RepositoryId(2))));
}

#[test]
fn direction_unrelated_repos_is_invalid_configuration() {
    let res = get_direction_and_small_repo_id(&common_config(), RepositoryId(1), RepositoryId(2));
    assert_eq!(res, Err(invalid(1, 2)));
}

#[test]
fn direction_unknown_small_repo_is_invalid_configuration() {
    let res = get_direction_and_small_repo_id(&common_config(), RepositoryId(7), RepositoryId(0));
    assert_eq!(res, Err(invalid(7, 0)));
    let res = get_direction_and_small_repo_id(&common_config(), RepositoryId(0), RepositoryId(7));
    assert_eq!(res, Err(invalid(0, 7)));
}

#[test]
fn direction_is_the_same_on_every_call() {
    let first = get_direction_and_small_repo_id(&common_config(), RepositoryId(2), RepositoryId(0));
    let second = get_direction_and_small_repo_id(&common_config(), RepositoryId(2), RepositoryId(0));
    assert_eq!(first, second);
}

#[test]
fn movers_name_version_small_repo_and_both_directions() {
    let movers =
        get_movers_from_config(&common_config(), &version_config(), RepositoryId(1), RepositoryId(0))
            .unwrap();
    assert_eq!(
        movers.mover,
        MoverRule {
            version: CommitSyncConfigVersion("v1".to_string()),
            small_repo_id: RepositoryId(1),
            direction: CommitSyncDirection::SmallToLarge,
        }
    );
    assert_eq!(
        movers.reverse_mover,
        MoverRule {
            version: CommitSyncConfigVersion("v1".to_string()),
            small_repo_id: RepositoryId(1),
            direction: CommitSyncDirection::LargeToSmall,
        }
    );
}

#[test]
fn mover_and_reverse_mover_are_the_two_halves() {
    let movers =
        get_movers_from_config(&common_config(), &version_config(), RepositoryId(0), RepositoryId(2))
            .unwrap();
    let mover =
        get_mover(&common_config(), &version_config(), RepositoryId(0), RepositoryId(2)).unwrap();
    let reverse =
        get_reverse_mover(&common_config(), &version_config(), RepositoryId(0), RepositoryId(2))
            .unwrap();
    assert_eq!(mover, movers.mover);
    assert_eq!(reverse, movers.reverse_mover);
    assert_eq!(mover.direction, CommitSyncDirection::LargeToSmall);
    assert_eq!(reverse.direction, CommitSyncDirection::SmallToLarge);
    assert_eq!(mover.small_repo_id, RepositoryId(2));
}

#[test]
fn movers_of_unrelated_repos_are_refused() {
    assert_eq!(
        get_movers_from_config(&common_config(), &version_config(), RepositoryId(1), RepositoryId(2)),
        Err(invalid(1, 2))
    );
    assert_eq!(
        get_mover(&common_config(), &version_config(), RepositoryId(1), RepositoryId(2)),
        Err(invalid(1, 2))
    );
    assert_eq!(
        get_reverse_mover(&common_config(), &version_config(), RepositoryId(1), RepositoryId(2)),
        Err(invalid(1, 2))
    );
}

#[test]
fn bookmark_renamers_name_small_repo_and_both_directions() {
    let renamers =
        get_bookmark_renamers_from_config(&common_config(), RepositoryId(1), RepositoryId(0))
            .unwrap();
    assert_eq!(
        renamers.bookmark_renamer,
        BookmarkRenamerRule {
            small_repo_id: RepositoryId(1),
            direction: CommitSyncDirection::SmallToLarge
        }
    );
    assert_eq!(
        renamers.reverse_bookmark_renamer,
        BookmarkRenamerRule {
            small_repo_id: RepositoryId(1),
            direction: CommitSyncDirection::LargeToSmall
        }
    );
    assert_eq!(
        get_bookmark_renamer(&common_config(), RepositoryId(1), RepositoryId(0)),
        Ok(renamers.bookmark_renamer)
    );
    assert_eq!(
        get_reverse_bookmark_renamer(&common_config(), RepositoryId(1), RepositoryId(0)),
        Ok(renamers.reverse_bookmark_renamer)
    );
}

#[test]
fn bookmark_renamers_of_unrelated_repos_are_refused() {
    assert_eq!(
        get_bookmark_renamers_from_config(&common_config(), RepositoryId(5), RepositoryId(6)),
        Err(invalid(5, 6))
    );
    assert_eq!(
        get_bookmark_renamer(&common_config(), RepositoryId(5), RepositoryId(6)),
        Err(invalid(5, 6))
    );
    assert_eq!(
        get_reverse_bookmark_renamer(&common_config(), RepositoryId(5), RepositoryId(6)),
        Err(invalid(5, 6))
    );
}

#[test]
fn submodules_action_of_a_declared_small_repo() {
    assert_eq!(
        get_strip_git_submodules_by_version(&version_config(), RepositoryId(1)),
        GitSubmodulesChangesAction::Keep
    );
    assert_eq!(
        get_strip_git_submodules_by_version(&version_config(), RepositoryId(2)),
        GitSubmodulesChangesAction::Expand
    );
}

#[test]
fn submodules_action_defaults_to_strip() {
    assert_eq!(
        get_strip_git_submodules_by_version(&version_config(), RepositoryId(9)),
        GitSubmodulesChangesAction::Strip
    );
    assert_eq!(GitSubmodulesChangesAction::default(), GitSubmodulesChangesAction::Strip);
}

#[test]
fn small_repos_of_a_version() {
    assert_eq!(
        get_small_repos_for_version(&version_config()),
        vec![RepositoryId(1), RepositoryId(2)]
    );
}

#[test]
fn version_exists_when_found() {
    assert!(version_exists(&Some(version_config())));
    assert!(!version_exists(&None));
}

#[test]
fn common_pushrebase_bookmarks_of_a_pair() {
    assert_eq!(get_common_pushrebase_bookmarks(&common_config()), vec![bookmark("master")]);
}

#[test]
fn direction_reverses() {
    assert_eq!(CommitSyncDirection::SmallToLarge.reverse(), CommitSyncDirection::LargeToSmall);
    assert_eq!(CommitSyncDirection::LargeToSmall.reverse(), CommitSyncDirection::SmallToLarge);
}
