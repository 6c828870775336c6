//! Resolution of the sync configuration of a repository pair: which way
//! commits travel, which small repository takes part, and which path and
//! bookmark rules apply.

use vstd::prelude::*;
use crate::types::{BookmarkKey, CommitSyncConfigVersion, CommitSyncDirection, RepositoryId, SyncError};

verus! {

/// The permanent facts about one small repository of a pair.
#[derive(Debug, PartialEq, Eq)]
pub struct SmallRepoPermanentConfig {
    pub repo_id: RepositoryId,
    pub bookmark_prefix: String,
}

/// The facts about a repository pair that hold under every version.
#[derive(Debug, PartialEq, Eq)]
pub struct CommonCommitSyncConfig {
    pub common_pushrebase_bookmarks: Vec<BookmarkKey>,
    pub small_repos: Vec<SmallRepoPermanentConfig>,
    pub large_repo_id: RepositoryId,
}

/// What happens to changes of git submodules when a commit is rewritten.
#[derive(Clone, Copy, Debug, PartialEq, Eq, Structural, Hash)]
pub enum GitSubmodulesChangesAction {
    Keep,
    Strip,
    Expand,
}

impl GitSubmodulesChangesAction {
    /// The action taken for a repository that declares none.
    pub open spec fn spec_default() -> GitSubmodulesChangesAction {
        GitSubmodulesChangesAction::Strip
    }
}

impl Default for GitSubmodulesChangesAction {
    fn default() -> (res: Self)
        ensures
            res == GitSubmodulesChangesAction::spec_default(),
    {
        GitSubmodulesChangesAction::Strip
    }
}

/// What one version declares for one small repository.
#[derive(Debug, PartialEq, Eq)]
pub struct SmallRepoCommitSyncConfig {
    pub repo_id: RepositoryId,
    pub git_submodules_action: GitSubmodulesChangesAction,
}

/// One published version of the sync configuration.
#[derive(Debug, PartialEq, Eq)]
pub struct CommitSyncConfig {
    pub large_repo_id: RepositoryId,
    pub common_pushrebase_bookmarks: Vec<BookmarkKey>,
    pub small_repos: Vec<SmallRepoCommitSyncConfig>,
    pub version_name: CommitSyncConfigVersion,
}

/// Names the path-remapping function of one version, small repository and
/// direction. The same rule always names the same function.
#[derive(Debug, PartialEq, Eq)]
pub struct MoverRule {
    pub version: CommitSyncConfigVersion,
    pub small_repo_id: RepositoryId,
    pub direction: CommitSyncDirection,
}

/// The path-remapping rule of a sync and the rule of the opposite way.
#[derive(Debug, PartialEq, Eq)]
pub struct Movers {
    pub mover: MoverRule,
    pub reverse_mover: MoverRule,
}

/// Names the bookmark-renaming function of one small repository and
/// direction.
#[derive(Clone, Copy, Debug, PartialEq, Eq, Structural, Hash)]
pub struct BookmarkRenamerRule {
    pub small_repo_id: RepositoryId,
    pub direction: CommitSyncDirection,
}

/// The bookmark-renaming rule of a sync and the rule of the opposite way.
#[derive(Clone, Copy, Debug, PartialEq, Eq, Structural, Hash)]
pub struct BookmarkRenamers {
    pub bookmark_renamer: BookmarkRenamerRule,
    pub reverse_bookmark_renamer: BookmarkRenamerRule,
}

/// Whether `repo_id` is one of the small repositories of the pair.
pub open spec fn is_small_repo(small_repos: Seq<SmallRepoPermanentConfig>, repo_id: RepositoryId) -> bool {
    exists|i: int| 0 <= i < small_repos.len() && #[trigger] small_repos[i].repo_id == repo_id
}

/// The direction and the small repository of a sync from `source_repo_id`
/// to `target_repo_id`, or `None` where the two are not sync partners.
pub open spec fn direction_and_small_repo_id(
    common_config: CommonCommitSyncConfig,
    source_repo_id: RepositoryId,
    target_repo_id: RepositoryId,
) -> Option<(CommitSyncDirection, RepositoryId)> {
    if common_config.large_repo_id == source_repo_id && is_small_repo(
        common_config.small_repos@,
        target_repo_id,
    ) {
        if source_repo_id == target_repo_id {
            Some((CommitSyncDirection::SmallToLarge, target_repo_id))
        } else {
            Some((CommitSyncDirection::LargeToSmall, target_repo_id))
        }
    } else if common_config.large_repo_id == target_repo_id && is_small_repo(
        common_config.small_repos@,
        source_repo_id,
    ) {
        Some((CommitSyncDirection::SmallToLarge, source_repo_id))
    } else {
        None
    }
}

fn contains_small_repo(small_repos: &Vec<SmallRepoPermanentConfig>, repo_id: RepositoryId) -> (res:
    bool)
    ensures
        res == is_small_repo(small_repos@, repo_id),
{
    let mut i: usize = 0;
    while i < small_repos.len()
        invariant
            i <= small_repos.len(),
            forall|j: int| 0 <= j < i ==> (#[trigger] small_repos[j]).repo_id != repo_id,
        decreases small_repos.len() - i,
    {
        if small_repos[i].repo_id == repo_id {
            return true;
        }
        i += 1;
    }
    false
}

/// Decides which way a sync from `source_repo_id` to `target_repo_id` goes
/// and which of the two is the small repository. Fails where neither
/// repository is the configured large one with the other among the small ones.
pub fn get_direction_and_small_repo_id(
    common_config: &CommonCommitSyncConfig,
    source_repo_id: RepositoryId,
    target_repo_id: RepositoryId,
) -> (res: Result<(CommitSyncDirection, RepositoryId), SyncError>)
    ensures
        match direction_and_small_repo_id(*common_config, source_repo_id, target_repo_id) {
            Some(pair) => res == Ok::<(CommitSyncDirection, RepositoryId), SyncError>(pair),
            None => res == Err::<(CommitSyncDirection, RepositoryId), SyncError>(
                SyncError::InvalidConfiguration { source_repo_id, target_repo_id },
            ),
        },
{
    let small_repo_id = if common_config.large_repo_id == source_repo_id && contains_small_repo(
        &common_config.small_repos,
        target_repo_id,
    ) {
        target_repo_id
    } else if common_config.large_repo_id == target_repo_id && contains_small_repo(
        &common_config.small_repos,
        source_repo_id,
    ) {
        source_repo_id
    } else {
        return Err(SyncError::InvalidConfiguration { source_repo_id, target_repo_id });
    };

    let direction = if source_repo_id == small_repo_id {
        CommitSyncDirection::SmallToLarge
    } else {
        CommitSyncDirection::LargeToSmall
    };

    Ok((direction, small_repo_id))
}

/// Whether `res` is the resolution of the path-remapping rules of a sync
/// from `source_repo_id` to `target_repo_id` under `version`: the rule of
/// that version, small repository and direction, and the rule of the
/// opposite direction; or the refusal of a pair that is none.
pub open spec fn resolves_movers(
    res: Result<Movers, SyncError>,
    common_config: CommonCommitSyncConfig,
    version: CommitSyncConfigVersion,
    source_repo_id: RepositoryId,
    target_repo_id: RepositoryId,
) -> bool {
    match direction_and_small_repo_id(common_config, source_repo_id, target_repo_id) {
        Some((direction, small_repo_id)) => {
            &&& res matches Ok(movers)
            &&& movers.mover.version == version
            &&& movers.mover.small_repo_id == small_repo_id
            &&& movers.mover.direction == direction
            &&& movers.reverse_mover.version == version
            &&& movers.reverse_mover.small_repo_id == small_repo_id
            &&& movers.reverse_mover.direction == direction.reverse()
        },
        None => res matches Err(e) && e == (SyncError::InvalidConfiguration {
            source_repo_id,
            target_repo_id,
        }),
    }
}

/// Resolution is pure in the version: two resolutions for the same pair of
/// repositories under the same version give the same rules, whatever else
/// the two configurations hold.
pub proof fn lemma_resolution_is_version_pure(
    first: Result<Movers, SyncError>,
    second: Result<Movers, SyncError>,
    common_config: CommonCommitSyncConfig,
    version: CommitSyncConfigVersion,
    source_repo_id: RepositoryId,
    target_repo_id: RepositoryId,
)
    requires
        resolves_movers(first, common_config, version, source_repo_id, target_repo_id),
        resolves_movers(second, common_config, version, source_repo_id, target_repo_id),
    ensures
        first == second,
{
}

/// The pair of path-remapping rules of a sync under the version of
/// `commit_sync_config`.
pub fn get_movers_from_config(
    common_config: &CommonCommitSyncConfig,
    commit_sync_config: &CommitSyncConfig,
    source_repo_id: RepositoryId,
    target_repo_id: RepositoryId,
) -> (res: Result<Movers, SyncError>)
    ensures
        resolves_movers(
            res,
            *common_config,
            commit_sync_config.version_name,
            source_repo_id,
            target_repo_id,
        ),
{
    let (direction, small_repo_id) = get_direction_and_small_repo_id(
        common_config,
        source_repo_id,
        target_repo_id,
    )?;
    Ok(
        Movers {
            mover: MoverRule {
                version: commit_sync_config.version_name.clone(),
                small_repo_id,
                direction,
            },
            reverse_mover: MoverRule {
                version: commit_sync_config.version_name.clone(),
                small_repo_id,
                direction: direction.reverse(),
            },
        },
    )
}

/// The path-remapping rule that takes paths of the source repository to the
/// target repository.
pub fn get_mover(
    common_config: &CommonCommitSyncConfig,
    commit_sync_config: &CommitSyncConfig,
    source_repo_id: RepositoryId,
    target_repo_id: RepositoryId,
) -> (res: Result<MoverRule, SyncError>)
    ensures
        match direction_and_small_repo_id(*common_config, source_repo_id, target_repo_id) {
            Some((direction, small_repo_id)) => {
                &&& res matches Ok(rule)
                &&& rule.version == commit_sync_config.version_name
                &&& rule.small_repo_id == small_repo_id
                &&& rule.direction == direction
            },
            None => res matches Err(e) && e == (SyncError::InvalidConfiguration {
                source_repo_id,
                target_repo_id,
            }),
        },
{
    let movers = get_movers_from_config(
        common_config,
        commit_sync_config,
        source_repo_id,
        target_repo_id,
    )?;
    Ok(movers.mover)
}

/// The path-remapping rule that takes paths of the target repository back
/// to the source repository.
pub fn get_reverse_mover(
    common_config: &CommonCommitSyncConfig,
    commit_sync_config: &CommitSyncConfig,
    source_repo_id: RepositoryId,
    target_repo_id: RepositoryId,
) -> (res: Result<MoverRule, SyncError>)
    ensures
        match direction_and_small_repo_id(*common_config, source_repo_id, target_repo_id) {
            Some((direction, small_repo_id)) => {
                &&& res matches Ok(rule)
                &&& rule.version == commit_sync_config.version_name
                &&& rule.small_repo_id == small_repo_id
                &&& rule.direction == direction.reverse()
            },
            None => res matches Err(e) && e == (SyncError::InvalidConfiguration {
                source_repo_id,
                target_repo_id,
            }),
        },
{
    let movers = get_movers_from_config(
        common_config,
        commit_sync_config,
        source_repo_id,
        target_repo_id,
    )?;
    Ok(movers.reverse_mover)
}

/// The pair of bookmark-renaming rules of a sync.
pub fn get_bookmark_renamers_from_config(
    common_config: &CommonCommitSyncConfig,
    source_repo_id: RepositoryId,
    target_repo_id: RepositoryId,
) -> (res: Result<BookmarkRenamers, SyncError>)
    ensures
        match direction_and_small_repo_id(*common_config, source_repo_id, target_repo_id) {
            Some((direction, small_repo_id)) => res == Ok::<BookmarkRenamers, SyncError>(
                BookmarkRenamers {
                    bookmark_renamer: BookmarkRenamerRule { small_repo_id, direction },
                    reverse_bookmark_renamer: BookmarkRenamerRule {
                        small_repo_id,
                        direction: direction.reverse(),
                    },
                },
            ),
            None => res == Err::<BookmarkRenamers, SyncError>(
                SyncError::InvalidConfiguration { source_repo_id, target_repo_id },
            ),
        },
{
    let (direction, small_repo_id) = get_direction_and_small_repo_id(
        common_config,
        source_repo_id,
        target_repo_id,
    )?;
    Ok(
        BookmarkRenamers {
            bookmark_renamer: BookmarkRenamerRule { small_repo_id, direction },
            reverse_bookmark_renamer: BookmarkRenamerRule {
                small_repo_id,
                direction: direction.reverse(),
            },
        },
    )
}

/// The rule that renames bookmarks of the source repository for the target
/// repository.
pub fn get_bookmark_renamer(
    common_config: &CommonCommitSyncConfig,
    source_repo_id: RepositoryId,
    target_repo_id: RepositoryId,
) -> (res: Result<BookmarkRenamerRule, SyncError>)
    ensures
        match direction_and_small_repo_id(*common_config, source_repo_id, target_repo_id) {
            Some((direction, small_repo_id)) => res == Ok::<BookmarkRenamerRule, SyncError>(
                BookmarkRenamerRule { small_repo_id, direction },
            ),
            None => res == Err::<BookmarkRenamerRule, SyncError>(
                SyncError::InvalidConfiguration { source_repo_id, target_repo_id },
            ),
        },
{
    let renamers = get_bookmark_renamers_from_config(
        common_config,
        source_repo_id,
        target_repo_id,
    )?;
    Ok(renamers.bookmark_renamer)
}

/// The rule that renames bookmarks of the target repository back for the
/// source repository.
pub fn get_reverse_bookmark_renamer(
    common_config: &CommonCommitSyncConfig,
    source_repo_id: RepositoryId,
    target_repo_id: RepositoryId,
) -> (res: Result<BookmarkRenamerRule, SyncError>)
    ensures
        match direction_and_small_repo_id(*common_config, source_repo_id, target_repo_id) {
            Some((direction, small_repo_id)) => res == Ok::<BookmarkRenamerRule, SyncError>(
                BookmarkRenamerRule { small_repo_id, direction: direction.reverse() },
            ),
            None => res == Err::<BookmarkRenamerRule, SyncError>(
                SyncError::InvalidConfiguration { source_repo_id, target_repo_id },
            ),
        },
{
    let renamers = get_bookmark_renamers_from_config(
        common_config,
        source_repo_id,
        target_repo_id,
    )?;
    Ok(renamers.reverse_bookmark_renamer)
}

/// The submodule action that the first entry for `repo_id` declares, from
/// position `from` on; the default where there is none.
pub open spec fn submodules_action_from(
    small_repos: Seq<SmallRepoCommitSyncConfig>,
    repo_id: RepositoryId,
    from: int,
) -> GitSubmodulesChangesAction
    decreases small_repos.len() - from,
{
    if from < 0 || from >= small_repos.len() {
        GitSubmodulesChangesAction::spec_default()
    } else if small_repos[from].repo_id == repo_id {
        small_repos[from].git_submodules_action
    } else {
        submodules_action_from(small_repos, repo_id, from + 1)
    }
}

/// What the version does with git submodule changes of commits from
/// `source_repo_id`: what the version declares for that small repository,
/// and the default action where it declares nothing for it.
pub fn get_strip_git_submodules_by_version(
    commit_sync_config: &CommitSyncConfig,
    source_repo_id: RepositoryId,
) -> (res: GitSubmodulesChangesAction)
    ensures
        res == submodules_action_from(commit_sync_config.small_repos@, source_repo_id, 0),
{
    let mut i: usize = 0;
    while i < commit_sync_config.small_repos.len()
        invariant
            i <= commit_sync_config.small_repos.len(),
            submodules_action_from(commit_sync_config.small_repos@, source_repo_id, 0)
                == submodules_action_from(commit_sync_config.small_repos@, source_repo_id, i as int),
        decreases commit_sync_config.small_repos.len() - i,
    {
        if commit_sync_config.small_repos[i].repo_id == source_repo_id {
            return commit_sync_config.small_repos[i].git_submodules_action;
        }
        i += 1;
    }
    GitSubmodulesChangesAction::default()
}

/// The small repositories that the version declares, in declaration order.
pub fn get_small_repos_for_version(commit_sync_config: &CommitSyncConfig) -> (res: Vec<
    RepositoryId,
>)
    ensures
        res@.len() == commit_sync_config.small_repos@.len(),
        forall|i: int|
            0 <= i < res@.len() ==> res@[i] == (#[trigger] commit_sync_config.small_repos@[i]).repo_id,
{
    let mut res: Vec<RepositoryId> = Vec::new();
    let mut i: usize = 0;
    while i < commit_sync_config.small_repos.len()
        invariant
            i <= commit_sync_config.small_repos.len(),
            res@.len() == i,
            forall|j: int|
                0 <= j < i ==> res@[j] == (#[trigger] commit_sync_config.small_repos@[j]).repo_id,
        decreases commit_sync_config.small_repos.len() - i,
    {
        res.push(commit_sync_config.small_repos[i].repo_id);
        i += 1;
    }
    res
}

/// Whether a lookup of a version found one.
pub fn version_exists(maybe_version: &Option<CommitSyncConfig>) -> (res: bool)
    ensures
        res == maybe_version.is_some(),
{
    maybe_version.is_some()
}

/// The bookmarks that both repositories of the pair share and advance
/// together.
pub fn get_common_pushrebase_bookmarks(common_sync_config: &CommonCommitSyncConfig) -> (res: Vec<
    BookmarkKey,
>)
    ensures
        res@ == common_sync_config.common_pushrebase_bookmarks@,
{
    let mut res: Vec<BookmarkKey> = Vec::new();
    let mut i: usize = 0;
    while i < common_sync_config.common_pushrebase_bookmarks.len()
        invariant
            i <= common_sync_config.common_pushrebase_bookmarks.len(),
            res@ == common_sync_config.common_pushrebase_bookmarks@.subrange(0, i as int),
        decreases common_sync_config.common_pushrebase_bookmarks.len() - i,
    {
        res.push(common_sync_config.common_pushrebase_bookmarks[i].clone());
        i += 1;
    }
    res
}

} // verus!
