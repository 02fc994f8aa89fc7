//! Where a workspace lives on disk and what its member links point at,
//! resolved from the registry.

use vstd::prelude::*;
use crate::config::{RepoEntry, ReportalConfig, WorkspaceEntry, WorkspaceMember, repo_lookup};
use crate::error::{ReportalError, is_repo_not_found, is_workspace_not_found};
use crate::home::{
    default_workspace_root, expand_tilde_with_home, home_view, is_missing_home, resolve_default_workspace_root,
    tilde_expansion,
};
use crate::key_order::key_position;
use crate::paths::{file_name, file_name_of, join_path, join_paths};
use crate::text::{chars_of, string_of, trim, trimmed};
use crate::workspace_layout::{
    WorkspaceLayoutParameters, WorkspaceLayoutPlan, WorkspaceLinkSpec, folder_entry, materialize_workspace_layout,
    workspace_file_in, workspace_file_path_inside_dir,
};

verus! {

/// The directory of a workspace entry named `name`: its configured
/// directory with `~` expanded, or, when that is empty or still names a
/// `.code-workspace` file, `<default root>/<name>` (which needs the home
/// directory).
pub open spec fn workspace_directory_of(entry: WorkspaceEntry, name: Seq<char>, home: Option<Seq<char>>)
    -> Option<Seq<char>> {
    let raw = trim(entry.directory@);
    if raw.len() == 0 || entry.legacy_file_path() {
        match home {
            Some(directory) => Some(join_path(default_workspace_root(directory), name)),
            None => None,
        }
    } else {
        Some(tilde_expansion(raw, home))
    }
}

/// The link name of an inline member: the final component of its path,
/// or `inline` when the path has none.
pub open spec fn inline_link_name(path: Seq<char>) -> Seq<char> {
    match file_name(path) {
        Some(name) => name,
        None => "inline"@,
    }
}

/// The link name for an inline member's path.
pub fn inline_path_link_name(target_path: &str) -> (link_name: String)
    ensures
        link_name@ == inline_link_name(target_path@),
{
    let characters = chars_of(target_path);
    match file_name_of(characters.as_slice()) {
        Some(name) => string_of(name.as_slice()),
        None => "inline".to_owned(),
    }
}

/// The first member alias, from `from` on, that names no repository.
pub open spec fn first_missing_member(
    repos: Seq<(String, RepoEntry)>,
    members: Seq<WorkspaceMember>,
    from: int,
) -> Option<Seq<char>>
    decreases members.len() - from,
{
    if from < 0 || from >= members.len() {
        None
    } else {
        match members[from] {
            WorkspaceMember::RegisteredRepo(alias) => if repo_lookup(repos, alias@) is None {
                Some(alias@)
            } else {
                first_missing_member(repos, members, from + 1)
            },
            WorkspaceMember::InlinePath { .. } => first_missing_member(repos, members, from + 1),
        }
    }
}

/// The link for one member that resolves: a repository under the alias
/// the workspace lists, pointing at its expanded path; an inline path under
/// its final component, pointing at the path with `~` expanded.
pub open spec fn member_link(
    repos: Seq<(String, RepoEntry)>,
    member: WorkspaceMember,
    home: Option<String>,
) -> (Seq<char>, Seq<char>) {
    match member {
        WorkspaceMember::RegisteredRepo(alias) => (
            alias@,
            repos[repo_lookup(repos, alias@)->0].1.resolved_path_view(home),
        ),
        WorkspaceMember::InlinePath { path } => (
            inline_link_name(tilde_expansion(path@, home_view(home))),
            tilde_expansion(path@, home_view(home)),
        ),
    }
}

/// Link specs as plain values.
pub open spec fn link_views(links: Seq<WorkspaceLinkSpec>) -> Seq<(Seq<char>, Seq<char>)> {
    links.map_values(|link: WorkspaceLinkSpec| (link.link_name@, link.target_absolute_path@))
}

/// The plan lays out workspace `entry` named `name` in `directory`: one
/// link per member, inside the directory under the member's link name,
/// its folder entry, the workspace file inside the directory, and no
/// window identity.
pub open spec fn is_layout_of(
    plan: WorkspaceLayoutPlan,
    repos: Seq<(String, RepoEntry)>,
    entry: WorkspaceEntry,
    name: Seq<char>,
    directory: Seq<char>,
    home: Option<String>,
) -> bool {
    &&& plan.workspace_directory@ == directory
    &&& plan.workspace_file_path@ == workspace_file_in(directory, name)
    &&& plan.member_links@.len() == entry.members@.len()
    &&& plan.folder_paths@.len() == entry.members@.len()
    &&& forall|i: int|
        0 <= i < plan.member_links@.len() ==> (#[trigger] plan.member_links@[i]).0@ == join_path(
            directory,
            member_link(repos, entry.members@[i], home).0,
        ) && plan.member_links@[i].1@ == member_link(repos, entry.members@[i], home).1
            && plan.folder_paths@[i]@ == folder_entry(member_link(repos, entry.members@[i], home).0)
    &&& plan.window_identity is None
}

/// What regenerating the workspace registered under `name` gives: an
/// unknown name is `WorkspaceNotFound`, a member that names no repository
/// is `RepoNotFound`, a directory that needs an unknown home directory is
/// `ConfigIoFailure`, and otherwise the layout of the workspace in its
/// directory.
pub open spec fn regeneration_result(
    config: ReportalConfig,
    name: Seq<char>,
    home: Option<String>,
    plan: Result<WorkspaceLayoutPlan, ReportalError>,
) -> bool {
    match key_position(config.workspaces@, name) {
        None => plan matches Err(error) && is_workspace_not_found(error, name),
        Some(index) => match first_missing_member(config.repos@, config.workspaces@[index].1.members@, 0) {
            Some(alias) => plan matches Err(error) && is_repo_not_found(error, alias),
            None => match workspace_directory_of(config.workspaces@[index].1, name, home_view(home)) {
                None => plan matches Err(error) && error is ConfigIoFailure,
                Some(directory) => plan matches Ok(layout) && is_layout_of(
                    layout,
                    config.repos@,
                    config.workspaces@[index].1,
                    name,
                    directory,
                    home,
                ),
            },
        },
    }
}

/// Reads workspace layouts out of a registry.
pub struct WorkspaceRegenerator<'config> {
    pub config_registry: &'config ReportalConfig,
}

impl<'config> WorkspaceRegenerator<'config> {
    /// A regenerator over the registry.
    pub fn for_config(config_registry: &'config ReportalConfig) -> (regenerator: Self)
        ensures
            regenerator.config_registry == config_registry,
    {
        WorkspaceRegenerator { config_registry }
    }

    /// The workspace's directory. Fails with `WorkspaceNotFound` for an
    /// unregistered name and `ConfigIoFailure` when the default location
    /// is needed without a home directory.
    pub fn resolve_workspace_directory(&self, workspace_name: &str, home: &Option<String>) -> (directory:
        Result<String, ReportalError>)
        requires
            self.config_registry.wf(),
        ensures
            match key_position(self.config_registry.workspaces@, workspace_name@) {
                None => directory matches Err(error) && is_workspace_not_found(error, workspace_name@),
                Some(index) => match workspace_directory_of(
                    self.config_registry.workspaces@[index].1,
                    workspace_name@,
                    home_view(*home),
                ) {
                    Some(path) => directory matches Ok(found) && found@ == path,
                    None => directory matches Err(error) && is_missing_home(error),
                },
            },
    {
        let target_workspace = match self.config_registry.get_workspace(workspace_name) {
            Ok(entry) => entry,
            Err(error) => {
                return Err(error);
            },
        };
        let raw = chars_of(target_workspace.directory.as_str());
        let raw_path = trimmed(raw.as_slice());
        if raw_path.len() == 0 || target_workspace.is_legacy_file_path() {
            let default_root = match resolve_default_workspace_root(home) {
                Ok(root) => root,
                Err(error) => {
                    return Err(error);
                },
            };
            let root_chars = chars_of(default_root.as_str());
            let name_chars = chars_of(workspace_name);
            let joined = join_paths(root_chars.as_slice(), name_chars.as_slice());
            return Ok(string_of(joined.as_slice()));
        }
        let raw_text = string_of(raw_path.as_slice());
        Ok(expand_tilde_with_home(raw_text.as_str(), home))
    }

    /// The `.code-workspace` file inside the workspace's directory, with the
    /// same failures as the directory (the same error value).
    pub fn resolve_workspace_file_path(&self, workspace_name: &str, home: &Option<String>) -> (file:
        Result<String, ReportalError>)
        requires
            self.config_registry.wf(),
        ensures
            match key_position(self.config_registry.workspaces@, workspace_name@) {
                None => file matches Err(error) && is_workspace_not_found(error, workspace_name@),
                Some(index) => match workspace_directory_of(
                    self.config_registry.workspaces@[index].1,
                    workspace_name@,
                    home_view(*home),
                ) {
                    Some(path) => file matches Ok(found) && found@ == workspace_file_in(
                        path,
                        workspace_name@,
                    ),
                    None => file matches Err(error) && is_missing_home(error),
                },
            },
    {
        match self.resolve_workspace_directory(workspace_name, home) {
            Ok(directory) => Ok(workspace_file_path_inside_dir(directory.as_str(), workspace_name)),
            Err(error) => Err(error),
        }
    }

    /// One link per member, in declared order; fails with `RepoNotFound` at
    /// the first member alias that names no repository.
    pub fn build_member_link_specs(&self, target_workspace: &WorkspaceEntry, home: &Option<String>) -> (specs:
        Result<Vec<WorkspaceLinkSpec>, ReportalError>)
        requires
            self.config_registry.wf(),
        ensures
            match first_missing_member(self.config_registry.repos@, target_workspace.members@, 0) {
                Some(alias) => specs matches Err(error) && is_repo_not_found(error, alias),
                None => specs matches Ok(links) && links@.len() == target_workspace.members@.len()
                    && forall|i: int|
                    0 <= i < links@.len() ==> link_views(links@)[i] == member_link(
                        self.config_registry.repos@,
                        #[trigger] target_workspace.members@[i],
                        *home,
                    ),
            },
    {
        let ghost repos = self.config_registry.repos@;
        let ghost members = target_workspace.members@;
        let mut resolved: Vec<WorkspaceLinkSpec> = Vec::new();
        let mut index: usize = 0;
        while index < target_workspace.members.len()
            invariant
                self.config_registry.wf(),
                repos == self.config_registry.repos@,
                members == target_workspace.members@,
                index <= members.len(),
                resolved@.len() == index,
                first_missing_member(repos, members, 0) == first_missing_member(repos, members, index as int),
                forall|i: int|
                    0 <= i < index ==> link_views(resolved@)[i] == member_link(
                        repos,
                        #[trigger] members[i],
                        *home,
                    ),
            decreases members.len() - index,
        {
            let ghost before = resolved@;
            match &target_workspace.members[index] {
                WorkspaceMember::RegisteredRepo(repo_alias) => {
                    match self.config_registry.get_repo(repo_alias.as_str()) {
                        Ok(member_repo) => {
                            resolved.push(
                                WorkspaceLinkSpec {
                                    link_name: repo_alias.clone(),
                                    target_absolute_path: member_repo.resolved_path(home),
                                },
                            );
                        },
                        Err(error) => {
                            assert(first_missing_member(repos, members, index as int) == Some(repo_alias@));
                            return Err(error);
                        },
                    }
                },
                WorkspaceMember::InlinePath { path } => {
                    let expanded = expand_tilde_with_home(path.as_str(), home);
                    let link_name = inline_path_link_name(expanded.as_str());
                    resolved.push(WorkspaceLinkSpec { link_name, target_absolute_path: expanded });
                },
            }
            proof {
                assert forall|i: int| 0 <= i < index + 1 implies link_views(resolved@)[i] == member_link(
                    repos,
                    #[trigger] members[i],
                    *home,
                ) by {
                    if i < index {
                        assert(resolved@[i] == before[i]);
                        assert(link_views(before)[i] == member_link(repos, members[i], *home));
                    }
                }
            }
            index = index + 1;
        }
        Ok(resolved)
    }

    /// The full layout of a registered workspace: its directory, its member
    /// links, and its workspace file.
    pub fn regenerate_workspace_file(&self, workspace_name: &str, home: &Option<String>) -> (plan: Result<
        WorkspaceLayoutPlan,
        ReportalError,
    >)
        requires
            self.config_registry.wf(),
        ensures
            regeneration_result(*self.config_registry, workspace_name@, *home, plan),
    {
        let target_workspace = match self.config_registry.get_workspace(workspace_name) {
            Ok(entry) => entry,
            Err(error) => {
                return Err(error);
            },
        };
        let member_links = match self.build_member_link_specs(target_workspace, home) {
            Ok(links) => links,
            Err(error) => {
                return Err(error);
            },
        };
        let workspace_directory = match self.resolve_workspace_directory(workspace_name, home) {
            Ok(directory) => directory,
            Err(error) => {
                return Err(error);
            },
        };
        let plan = materialize_workspace_layout(
            &WorkspaceLayoutParameters {
                workspace_directory: workspace_directory.as_str(),
                workspace_name,
                member_links: member_links.as_slice(),
                window_title_override: None,
                title_bar_color_hex: None,
            },
        );
        assert forall|i: int| 0 <= i < member_links@.len() implies (#[trigger] member_links@[i]).link_name@
            == member_link(self.config_registry.repos@, target_workspace.members@[i], *home).0
            && member_links@[i].target_absolute_path@ == member_link(
            self.config_registry.repos@,
            target_workspace.members@[i],
            *home,
        ).1 by {
            assert(link_views(member_links@)[i] == (member_links@[i].link_name@, member_links@[i].target_absolute_path@));
        }
        Ok(plan)
    }
}

} // verus!
