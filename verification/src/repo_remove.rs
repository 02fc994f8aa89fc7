//! `rep remove`: unregistering a repository that no workspace lists.

use vstd::prelude::*;
use crate::config::{RepoEntry, ReportalConfig, containing_workspaces};
use crate::error::{ReportalError, is_repo_not_found};
use crate::key_order::key_position;
use crate::text::{join, join_strings};

verus! {

/// Removes the repository stored under `repository_alias`. Refused with
/// `RepoIsWorkspaceMember`, naming the workspaces (joined by `, `), while
/// any workspace lists it; `RepoNotFound` when no repository has that key.
pub fn run_remove(loaded_config: &mut ReportalConfig, repository_alias: &str) -> (removed: Result<
    RepoEntry,
    ReportalError,
>)
    requires
        old(loaded_config).wf(),
    ensures
        final(loaded_config).wf(),
        crate::config::same_settings(*final(loaded_config), *old(loaded_config)),
        final(loaded_config).workspaces == old(loaded_config).workspaces,
        containing_workspaces(old(loaded_config).workspaces@, repository_alias@, 0).len() > 0 ==> (removed matches Err(
            ReportalError::RepoIsWorkspaceMember { alias, affected_workspaces },
        ) && alias@ == repository_alias@ && affected_workspaces@ == join(
            containing_workspaces(old(loaded_config).workspaces@, repository_alias@, 0),
            ", "@,
        ) && final(loaded_config).repos == old(loaded_config).repos),
        containing_workspaces(old(loaded_config).workspaces@, repository_alias@, 0).len() == 0 ==> match key_position(
            old(loaded_config).repos@,
            repository_alias@,
        ) {
            None => removed matches Err(error) && is_repo_not_found(error, repository_alias@)
                && final(loaded_config).repos@ == old(loaded_config).repos@,
            Some(index) => removed matches Ok(entry) && entry == old(loaded_config).repos@[index].1
                && final(loaded_config).repos@ == old(loaded_config).repos@.remove(index),
        },
        removed is Ok ==> key_position(final(loaded_config).repos@, repository_alias@) is None,
{
    let containing = loaded_config.workspaces_containing_repo(repository_alias);
    if containing.len() > 0 {
        let joined_workspace_names = join_strings(&containing, ", ");
        return Err(
            ReportalError::RepoIsWorkspaceMember {
                alias: repository_alias.to_owned(),
                affected_workspaces: joined_workspace_names,
            },
        );
    }
    let ghost before = loaded_config.repos@;
    let outcome = loaded_config.remove_repo(repository_alias);
    proof {
        if outcome is Ok {
            let entry = outcome->Ok_0;
            let i = choose|i: int|
                0 <= i < before.len() && before[i].0@ == repository_alias@ && before[i].1 == entry
                    && loaded_config.repos@ == before.remove(i);
            crate::key_order::lemma_sorted_key_position(before, i);
        }
    }
    outcome
}

} // verus!
