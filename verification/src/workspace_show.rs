//! `rep workspace show`: one workspace's details, its directory and file,
//! and where each member's link lives.

use vstd::prelude::*;
use crate::config::{ReportalConfig, RepoEntry, WorkspaceMember, listed_alias, repo_lookup, workspace_lookup};
use crate::error::{ReportalError, is_repo_not_found, is_workspace_not_found};
use crate::home::{expand_tilde_with_home, home_view, tilde_expansion};
use crate::paths::{join_path, join_paths};
use crate::text::{chars_of, join, join_strings, string_of, string_views, uppercase};
use crate::workspace_layout::workspace_file_in;
use crate::workspace_operations::{
    WorkspaceRegenerator, first_missing_member, inline_link_name, inline_path_link_name,
    workspace_directory_of,
};

verus! {

/// One member line: a repository by alias, or an inline path.
pub struct ShownMember {
    /// The alias for a repository; empty for an inline path.
    pub repo_alias: String,
    /// Where the member lives, `~` expanded.
    pub target_path: String,
    /// Where its link in the workspace directory is.
    pub link_path: String,
}

/// What `show` prints about a workspace.
pub struct WorkspaceShowReport {
    pub canonical_name: String,
    pub uppercase_name: String,
    pub description: String,
    pub aliases_joined: String,
    pub directory: String,
    pub still_legacy: bool,
    pub file_path: String,
    /// The member lines, in declared order, up to the first member alias
    /// that names no repository.
    pub members: Vec<ShownMember>,
    /// The error to stop with once the lines above are printed:
    /// `RepoNotFound` for that member alias, if there is one.
    pub ending: Option<ReportalError>,
}

/// The member names a repository alias that no repository answers to.
pub open spec fn missing_member(repos: Seq<(String, RepoEntry)>, member: WorkspaceMember) -> bool {
    member matches WorkspaceMember::RegisteredRepo(alias) && repo_lookup(repos, alias@) is None
}

/// The member line as plain values: (alias, target, link path).
pub open spec fn shown_member(
    repos: Seq<(String, RepoEntry)>,
    member: WorkspaceMember,
    directory: Seq<char>,
    home: Option<String>,
) -> (Seq<char>, Seq<char>, Seq<char>) {
    match member {
        WorkspaceMember::RegisteredRepo(alias) => (
            alias@,
            repos[repo_lookup(repos, alias@)->0].1.resolved_path_view(home),
            join_path(directory, alias@),
        ),
        WorkspaceMember::InlinePath { path } => (
            Seq::empty(),
            tilde_expansion(path@, home_view(home)),
            join_path(directory, inline_link_name(tilde_expansion(path@, home_view(home)))),
        ),
    }
}

/// The report's member lines match the workspace's members.
pub open spec fn members_shown(
    shown: Seq<ShownMember>,
    repos: Seq<(String, RepoEntry)>,
    members: Seq<WorkspaceMember>,
    directory: Seq<char>,
    home: Option<String>,
) -> bool {
    &&& shown.len() == members.len()
    &&& forall|i: int|
        0 <= i < shown.len() ==> ((#[trigger] shown[i]).repo_alias@, shown[i].target_path@, shown[i].link_path@)
            == shown_member(repos, members[i], directory, home)
}

/// The details of the workspace that `alias_or_canonical` selects. Fails
/// with `WorkspaceNotFound` for an unknown name and `ConfigIoFailure` when
/// its directory needs a missing home directory. When a member alias names
/// no repository, the report holds the lines before the first such member
/// and ends with `RepoNotFound` for it: the caller prints what there is,
/// then stops with that error.
pub fn run_workspace_show(loaded_config: &ReportalConfig, alias_or_canonical: &str, home: &Option<String>) -> (report:
    Result<WorkspaceShowReport, ReportalError>)
    requires
        loaded_config.wf(),
    ensures
        match workspace_lookup(loaded_config.workspaces@, alias_or_canonical@) {
            None => report matches Err(error) && is_workspace_not_found(error, alias_or_canonical@),
            Some(index) => {
                let (name, entry) = loaded_config.workspaces@[index];
                match workspace_directory_of(entry, name@, home_view(*home)) {
                    None => report matches Err(error) && error is ConfigIoFailure,
                    Some(directory) => report matches Ok(shown) && shown.canonical_name@ == name@
                        && shown.uppercase_name@ == uppercase(name@) && shown.description@
                        == entry.description@ && shown.aliases_joined@ == join(
                        string_views(entry.aliases@),
                        ", "@,
                    ) && shown.directory@ == directory && shown.still_legacy == entry.legacy_file_path()
                        && shown.file_path@ == workspace_file_in(directory, name@) && (forall|i: int|
                        0 <= i < shown.members@.len() ==> !missing_member(
                        loaded_config.repos@,
                        #[trigger] entry.members@[i],
                    )) && match first_missing_member(loaded_config.repos@, entry.members@, 0) {
                        None => shown.ending is None && members_shown(
                            shown.members@,
                            loaded_config.repos@,
                            entry.members@,
                            directory,
                            *home,
                        ),
                        Some(alias) => shown.members@.len() < entry.members@.len() && missing_member(
                            loaded_config.repos@,
                            entry.members@[shown.members@.len() as int],
                        ) && (shown.ending matches Some(error) && is_repo_not_found(error, alias))
                            && members_shown(
                            shown.members@,
                            loaded_config.repos@,
                            entry.members@.take(shown.members@.len() as int),
                            directory,
                            *home,
                        ),
                    },
                }
            },
        },
{
    let canonical_name = match loaded_config.resolve_workspace_canonical_name(alias_or_canonical) {
        Ok(name) => name,
        Err(error) => {
            return Err(error);
        },
    };
    proof {
        crate::config::lemma_workspace_lookup_bounds(loaded_config.workspaces@, alias_or_canonical@);
        let lookup = workspace_lookup(loaded_config.workspaces@, alias_or_canonical@)->0;
        crate::key_order::lemma_sorted_key_position(loaded_config.workspaces@, lookup);
    }
    let target_workspace = match loaded_config.get_workspace(canonical_name.as_str()) {
        Ok(entry) => entry,
        Err(error) => {
            return Err(error);
        },
    };
    let regenerator = WorkspaceRegenerator::for_config(loaded_config);
    let workspace_directory = match regenerator.resolve_workspace_directory(canonical_name.as_str(), home) {
        Ok(directory) => directory,
        Err(error) => {
            return Err(error);
        },
    };
    let workspace_file_path = match regenerator.resolve_workspace_file_path(canonical_name.as_str(), home) {
        Ok(path) => path,
        Err(error) => {
            return Err(error);
        },
    };
    let directory_chars = chars_of(workspace_directory.as_str());
    let ghost lookup = workspace_lookup(loaded_config.workspaces@, alias_or_canonical@)->0;
    assert(loaded_config.workspaces@[lookup].1 == *target_workspace);
    let ghost repos = loaded_config.repos@;
    let ghost members = target_workspace.members@;
    let mut shown: Vec<ShownMember> = Vec::new();
    let mut ending: Option<ReportalError> = None;
    let mut index: usize = 0;
    while index < target_workspace.members.len() && ending.is_none()
        invariant
            loaded_config.wf(),
            repos == loaded_config.repos@,
            members == target_workspace.members@,
            0 <= lookup < loaded_config.workspaces@.len(),
            workspace_lookup(loaded_config.workspaces@, alias_or_canonical@) == Some(lookup),
            loaded_config.workspaces@[lookup].1 == *target_workspace,
            workspace_directory_of(
                loaded_config.workspaces@[lookup].1,
                loaded_config.workspaces@[lookup].0@,
                home_view(*home),
            ) == Some(workspace_directory@),
            directory_chars@ == workspace_directory@,
            index <= members.len(),
            shown@.len() == index,
            first_missing_member(repos, members, 0) == first_missing_member(repos, members, index as int),
            forall|i: int|
                0 <= i < index ==> ((#[trigger] shown@[i]).repo_alias@, shown@[i].target_path@, shown@[i].link_path@)
                    == shown_member(repos, members[i], workspace_directory@, *home),
            forall|i: int| 0 <= i < index ==> !missing_member(repos, #[trigger] members[i]),
            ending matches Some(error) ==> index < members.len() && missing_member(repos, members[index as int])
                && is_repo_not_found(error, listed_alias(members[index as int])),
        decreases 2 * (members.len() - index) + (if ending is None { 1int } else { 0int }),
    {
        match &target_workspace.members[index] {
            WorkspaceMember::RegisteredRepo(member_alias) => {
                let member_repo = match loaded_config.get_repo(member_alias.as_str()) {
                    Ok(entry) => entry,
                    Err(error) => {
                        assert(first_missing_member(repos, members, index as int) == Some(member_alias@));
                        ending = Some(error);
                        continue;
                    },
                };
                let alias_chars = chars_of(member_alias.as_str());
                let link_path = join_paths(directory_chars.as_slice(), alias_chars.as_slice());
                shown.push(
                    ShownMember {
                        repo_alias: member_alias.clone(),
                        target_path: member_repo.resolved_path(home),
                        link_path: string_of(link_path.as_slice()),
                    },
                );
            },
            WorkspaceMember::InlinePath { path } => {
                let expanded = expand_tilde_with_home(path.as_str(), home);
                let link_name = inline_path_link_name(expanded.as_str());
                let link_chars = chars_of(link_name.as_str());
                let link_path = join_paths(directory_chars.as_slice(), link_chars.as_slice());
                shown.push(
                    ShownMember {
                        repo_alias: String::new(),
                        target_path: expanded,
                        link_path: string_of(link_path.as_slice()),
                    },
                );
            },
        }
        index = index + 1;
    }
    Ok(
        WorkspaceShowReport {
            uppercase_name: crate::text::to_uppercase_text(canonical_name.as_str()),
            description: target_workspace.description.clone(),
            aliases_joined: join_strings(&target_workspace.aliases, ", "),
            directory: workspace_directory,
            still_legacy: target_workspace.is_legacy_file_path(),
            file_path: workspace_file_path,
            members: shown,
            ending,
            canonical_name,
        },
    )
}

} // verus!
