//! Adding a repository to a workspace and taking one out.

use vstd::prelude::*;
use crate::config::{
    ReportalConfig, WorkspaceEntry, WorkspaceMember, listed_alias, member_is_repo, repo_lookup,
    workspace_lookup,
};
use crate::error::{ReportalError, is_repo_not_found, is_workspace_not_found};
use crate::text::{extend_str, string_of};

verus! {

/// `repo '<alias>' is already a member of workspace '<name>'`.
pub open spec fn already_member_reason(alias: Seq<char>, workspace: Seq<char>) -> Seq<char> {
    "repo '"@ + alias + "' is already a member of workspace '"@ + workspace + "'"@
}

/// `repo '<alias>' is not a member of workspace '<name>'`.
pub open spec fn not_member_reason(alias: Seq<char>, workspace: Seq<char>) -> Seq<char> {
    "repo '"@ + alias + "' is not a member of workspace '"@ + workspace + "'"@
}

/// The refusal to empty a workspace.
pub open spec fn last_member_reason(alias: Seq<char>, workspace: Seq<char>) -> Seq<char> {
    "removing '"@ + alias + "' would leave workspace '"@ + workspace
        + "' with zero members; delete the workspace instead"@
}

/// A `ValidationFailure` of the `workspace member` field with this reason.
pub open spec fn is_member_failure(error: ReportalError, reason: Seq<char>) -> bool {
    error matches ReportalError::ValidationFailure { field, reason: why } && field@
        == "workspace member"@ && why@ == reason
}

fn member_failure(first: &str, alias: &str, middle: &str, workspace: &str, last: &str) -> (error:
    ReportalError)
    ensures
        is_member_failure(error, first@ + alias@ + middle@ + workspace@ + last@),
{
    let mut reason: Vec<char> = Vec::new();
    extend_str(&mut reason, first);
    extend_str(&mut reason, alias);
    extend_str(&mut reason, middle);
    extend_str(&mut reason, workspace);
    extend_str(&mut reason, last);
    ReportalError::ValidationFailure {
        field: "workspace member".to_owned(),
        reason: string_of(reason.as_slice()),
    }
}

/// The members other than the repository `alias`, in order.
pub open spec fn members_without(members: Seq<WorkspaceMember>, alias: Seq<char>) -> Seq<WorkspaceMember>
    decreases members.len(),
{
    if members.len() == 0 {
        Seq::empty()
    } else {
        let rest = members_without(members.drop_last(), alias);
        if member_is_repo(members.last(), alias) {
            rest
        } else {
            rest.push(members.last())
        }
    }
}

fn copy_member(member: &WorkspaceMember) -> (copy: WorkspaceMember)
    ensures
        copy == *member,
{
    match member {
        WorkspaceMember::RegisteredRepo(alias) => WorkspaceMember::RegisteredRepo(alias.clone()),
        WorkspaceMember::InlinePath { path } => WorkspaceMember::InlinePath { path: path.clone() },
    }
}

/// Adds repository `repo_alias` to the workspace that `workspace_name`
/// selects, at the end. Fails with `RepoNotFound` when no repository
/// answers to the alias, `WorkspaceNotFound` when no workspace answers to
/// the name, and a `workspace member` validation failure when the
/// workspace already lists the alias; the registry is then unchanged.
pub fn run_workspace_add_repo(loaded_config: &mut ReportalConfig, workspace_name: &str, repo_alias: &str) -> (added:
    Result<String, ReportalError>)
    requires
        old(loaded_config).wf(),
    ensures
        final(loaded_config).wf(),
        crate::config::same_settings(*final(loaded_config), *old(loaded_config)),
        forall|i: int| 0 <= i < old(loaded_config).workspaces@.len() ==> final(loaded_config).workspaces@[i].0
            == old(loaded_config).workspaces@[i].0 && crate::config::same_apart_from_members(
            #[trigger] final(loaded_config).workspaces@[i].1,
            old(loaded_config).workspaces@[i].1,
        ),
        final(loaded_config).repos == old(loaded_config).repos,
        final(loaded_config).workspaces@.len() == old(loaded_config).workspaces@.len(),
        added is Err ==> final(loaded_config).workspaces@ == old(loaded_config).workspaces@,
        repo_lookup(old(loaded_config).repos@, repo_alias@) is None ==> (added matches Err(error)
            && is_repo_not_found(error, repo_alias@)),
        repo_lookup(old(loaded_config).repos@, repo_alias@) is Some ==> match workspace_lookup(
            old(loaded_config).workspaces@,
            workspace_name@,
        ) {
            None => added matches Err(error) && is_workspace_not_found(error, workspace_name@),
            Some(index) => {
                let (name, entry) = old(loaded_config).workspaces@[index];
                if entry.has_repo(repo_alias@) {
                    added matches Err(error) && is_member_failure(
                        error,
                        already_member_reason(repo_alias@, name@),
                    )
                } else {
                    added matches Ok(canonical) && canonical@ == name@ && final(loaded_config).workspaces@[index].0 == name && final(loaded_config).workspaces@[index].1.members@.len()
                        == entry.members@.len() + 1 && final(loaded_config).workspaces@[index].1.members@.take(
                        entry.members@.len() as int,
                    ) == entry.members@ && final(loaded_config).workspaces@[index].1.members@.last() is RegisteredRepo
                        && listed_alias(final(loaded_config).workspaces@[index].1.members@.last())
                        == repo_alias@ && forall|k: int|
                        0 <= k < old(loaded_config).workspaces@.len() && k != index ==> final(loaded_config).workspaces@[k] == old(loaded_config).workspaces@[k]
                }
            },
        },
{
    match loaded_config.get_repo(repo_alias) {
        Ok(_) => {},
        Err(error) => {
            return Err(error);
        },
    }
    let canonical_workspace_name = match loaded_config.resolve_workspace_canonical_name(workspace_name) {
        Ok(name) => name,
        Err(error) => {
            return Err(error);
        },
    };
    proof {
        crate::config::lemma_workspace_lookup_bounds(loaded_config.workspaces@, workspace_name@);
        let lookup = workspace_lookup(loaded_config.workspaces@, workspace_name@)->0;
        crate::key_order::lemma_sorted_key_position(loaded_config.workspaces@, lookup);
    }
    let index = match loaded_config.workspace_position(canonical_workspace_name.as_str()) {
        Some(index) => index,
        None => {
            return Err(ReportalError::WorkspaceNotFound { name: canonical_workspace_name });
        },
    };
    let target_workspace = &loaded_config.workspaces[index].1;
    if target_workspace.contains_repo(repo_alias) {
        return Err(
            member_failure(
                "repo '",
                repo_alias,
                "' is already a member of workspace '",
                canonical_workspace_name.as_str(),
                "'",
            ),
        );
    }
    let mut updated_members: Vec<WorkspaceMember> = Vec::new();
    let mut k: usize = 0;
    while k < target_workspace.members.len()
        invariant
            k <= target_workspace.members@.len(),
            updated_members@ == target_workspace.members@.take(k as int),
        decreases target_workspace.members@.len() - k,
    {
        updated_members.push(copy_member(&target_workspace.members[k]));
        assert(updated_members@ =~= target_workspace.members@.take(k + 1));
        k = k + 1;
    }
    assert(target_workspace.members@.take(k as int) =~= target_workspace.members@);
    updated_members.push(WorkspaceMember::RegisteredRepo(repo_alias.to_owned()));
    loaded_config.set_workspace_members(index, updated_members);
    Ok(canonical_workspace_name)
}

/// Takes every listing of repository `repo_alias` out of the workspace
/// that `workspace_name` selects. Fails with `WorkspaceNotFound` when no
/// workspace answers to the name, and with a `workspace member` validation
/// failure when the workspace does not list the alias or when nothing would
/// be left; the registry is then unchanged.
pub fn run_workspace_remove_repo(loaded_config: &mut ReportalConfig, workspace_name: &str, repo_alias: &str) -> (removed:
    Result<String, ReportalError>)
    requires
        old(loaded_config).wf(),
    ensures
        final(loaded_config).wf(),
        crate::config::same_settings(*final(loaded_config), *old(loaded_config)),
        forall|i: int| 0 <= i < old(loaded_config).workspaces@.len() ==> final(loaded_config).workspaces@[i].0
            == old(loaded_config).workspaces@[i].0 && crate::config::same_apart_from_members(
            #[trigger] final(loaded_config).workspaces@[i].1,
            old(loaded_config).workspaces@[i].1,
        ),
        final(loaded_config).repos == old(loaded_config).repos,
        final(loaded_config).workspaces@.len() == old(loaded_config).workspaces@.len(),
        removed is Err ==> final(loaded_config).workspaces@ == old(loaded_config).workspaces@,
        match workspace_lookup(old(loaded_config).workspaces@, workspace_name@) {
            None => removed matches Err(error) && is_workspace_not_found(error, workspace_name@),
            Some(index) => {
                let (name, entry) = old(loaded_config).workspaces@[index];
                if !entry.has_repo(repo_alias@) {
                    removed matches Err(error) && is_member_failure(
                        error,
                        not_member_reason(repo_alias@, name@),
                    )
                } else if members_without(entry.members@, repo_alias@).len() == 0 {
                    removed matches Err(error) && is_member_failure(
                        error,
                        last_member_reason(repo_alias@, name@),
                    )
                } else {
                    removed matches Ok(canonical) && canonical@ == name@ && final(loaded_config).workspaces@[index].0 == name && final(loaded_config).workspaces@[index].1.members@
                        == members_without(entry.members@, repo_alias@) && forall|k: int|
                        0 <= k < old(loaded_config).workspaces@.len() && k != index ==> final(loaded_config).workspaces@[k] == old(loaded_config).workspaces@[k]
                }
            },
        },
{
    let canonical_workspace_name = match loaded_config.resolve_workspace_canonical_name(workspace_name) {
        Ok(name) => name,
        Err(error) => {
            return Err(error);
        },
    };
    proof {
        crate::config::lemma_workspace_lookup_bounds(loaded_config.workspaces@, workspace_name@);
        let lookup = workspace_lookup(loaded_config.workspaces@, workspace_name@)->0;
        crate::key_order::lemma_sorted_key_position(loaded_config.workspaces@, lookup);
    }
    let index = match loaded_config.workspace_position(canonical_workspace_name.as_str()) {
        Some(index) => index,
        None => {
            return Err(ReportalError::WorkspaceNotFound { name: canonical_workspace_name });
        },
    };
    let target_workspace = &loaded_config.workspaces[index].1;
    if !target_workspace.contains_repo(repo_alias) {
        return Err(
            member_failure(
                "repo '",
                repo_alias,
                "' is not a member of workspace '",
                canonical_workspace_name.as_str(),
                "'",
            ),
        );
    }
    let ghost members = target_workspace.members@;
    let mut remaining_members: Vec<WorkspaceMember> = Vec::new();
    let mut k: usize = 0;
    while k < target_workspace.members.len()
        invariant
            members == target_workspace.members@,
            k <= members.len(),
            remaining_members@ == members_without(members.take(k as int), repo_alias@),
        decreases members.len() - k,
    {
        let ghost taken = members.take(k + 1);
        assert(taken.drop_last() =~= members.take(k as int));
        assert(taken.last() == members[k as int]);
        let keep = match &target_workspace.members[k] {
            WorkspaceMember::RegisteredRepo(existing_alias) => !crate::config::same_text(
                existing_alias.as_str(),
                repo_alias,
            ),
            WorkspaceMember::InlinePath { .. } => true,
        };
        if keep {
            remaining_members.push(copy_member(&target_workspace.members[k]));
        }
        k = k + 1;
    }
    assert(members.take(members.len() as int) =~= members);
    if remaining_members.len() == 0 {
        return Err(
            member_failure(
                "removing '",
                repo_alias,
                "' would leave workspace '",
                canonical_workspace_name.as_str(),
                "' with zero members; delete the workspace instead",
            ),
        );
    }
    loaded_config.set_workspace_members(index, remaining_members);
    Ok(canonical_workspace_name)
}

/// Taking a repository out leaves no listing of it, and keeps every other
/// member.
pub proof fn lemma_members_without_drops_only_alias(members: Seq<WorkspaceMember>, alias: Seq<char>)
    ensures
        forall|k: int|
            0 <= k < members_without(members, alias).len() ==> !member_is_repo(
                #[trigger] members_without(members, alias)[k],
                alias,
            ),
        forall|i: int|
            0 <= i < members.len() && !member_is_repo(#[trigger] members[i], alias) ==> members_without(
                members,
                alias,
            ).contains(members[i]),
    decreases members.len(),
{
    if members.len() > 0 {
        let front = members.drop_last();
        lemma_members_without_drops_only_alias(front, alias);
        let kept = members_without(front, alias);
        let whole = members_without(members, alias);
        assert forall|k: int| 0 <= k < whole.len() implies !member_is_repo(#[trigger] whole[k], alias) by {
            if k < kept.len() {
                assert(whole[k] == kept[k]);
            }
        }
        assert forall|i: int| 0 <= i < members.len() && !member_is_repo(#[trigger] members[i], alias) implies whole.contains(
            members[i],
        ) by {
            if i < members.len() - 1 {
                assert(front[i] == members[i]);
                let j = choose|j: int| 0 <= j < kept.len() && kept[j] == front[i];
                assert(whole[j] == kept[j]);
            } else {
                assert(whole[whole.len() - 1] == members[i]);
            }
        }
    }
}

/// Without a listing of the repository, taking it out changes nothing.
pub proof fn lemma_members_without_absent(members: Seq<WorkspaceMember>, alias: Seq<char>)
    requires
        forall|i: int| 0 <= i < members.len() ==> !member_is_repo(#[trigger] members[i], alias),
    ensures
        members_without(members, alias) == members,
    decreases members.len(),
{
    if members.len() > 0 {
        lemma_members_without_absent(members.drop_last(), alias);
        assert(members.drop_last().push(members.last()) =~= members);
    }
}

/// Removing a repository undoes adding it: a workspace that did not list
/// `alias`, with `alias` appended, gives back its members when `alias` is
/// taken out again.
pub proof fn lemma_remove_undoes_add(members: Seq<WorkspaceMember>, appended: WorkspaceMember, alias: Seq<char>)
    requires
        forall|i: int| 0 <= i < members.len() ==> !member_is_repo(#[trigger] members[i], alias),
        appended is RegisteredRepo,
        listed_alias(appended) == alias,
    ensures
        members_without(members.push(appended), alias) == members,
{
    let whole = members.push(appended);
    assert(whole.drop_last() =~= members);
    lemma_members_without_absent(members, alias);
}

/// An added repository is listed by the workspace afterwards.
pub proof fn lemma_added_member_is_listed(entry: WorkspaceEntry, alias: Seq<char>)
    requires
        entry.members@.len() > 0,
        entry.members@.last() is RegisteredRepo,
        listed_alias(entry.members@.last()) == alias,
    ensures
        entry.has_repo(alias),
{
    let last = entry.members@.len() - 1;
    assert(member_is_repo(entry.members@[last], alias));
}

} // verus!
