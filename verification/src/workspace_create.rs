//! `rep workspace create`: registering a workspace.

use vstd::prelude::*;
use crate::config::{ReportalConfig, WorkspaceEntry, WorkspaceMember, listed_alias, repo_lookup};
use crate::error::ReportalError;
use crate::key_order::key_position;
use crate::paths::{extension, extension_of, parent, parent_of};
use crate::text::{chars_of, chars_equal_ignoring_ascii_case, equal_ignoring_ascii_case, string_of, string_views, trim, trimmed};

verus! {

/// The directory a `--path` names: empty stays empty; a path to a
/// `.code-workspace` file (extension in any ASCII case) becomes its parent
/// directory (empty without one); any other path is kept, trimmed.
pub open spec fn directory_from_custom_path(raw_path: Seq<char>) -> Seq<char> {
    let trimmed_path = trim(raw_path);
    if trimmed_path.len() == 0 {
        Seq::empty()
    } else {
        match extension(trimmed_path) {
            Some(ext) if equal_ignoring_ascii_case(ext, "code-workspace"@) => match parent(trimmed_path) {
                Some(directory) => directory,
                None => Seq::empty(),
            },
            _ => trimmed_path,
        }
    }
}

/// Reads a `--path` given to `create` as the workspace's directory.
pub fn reinterpret_custom_path_as_directory(raw_path: &str) -> (directory: String)
    ensures
        directory@ == directory_from_custom_path(raw_path@),
{
    let raw = chars_of(raw_path);
    let cleaned = trimmed(raw.as_slice());
    if cleaned.len() == 0 {
        return String::new();
    }
    let suffix = chars_of("code-workspace");
    match extension_of(cleaned.as_slice()) {
        Some(ext) => {
            if chars_equal_ignoring_ascii_case(ext.as_slice(), suffix.as_slice()) {
                return match parent_of(cleaned.as_slice()) {
                    Some(directory) => string_of(directory.as_slice()),
                    None => String::new(),
                };
            }
        },
        None => {},
    }
    string_of(cleaned.as_slice())
}

/// What `rep workspace create` was given.
pub struct WorkspaceCreateParts {
    pub workspace_name: String,
    pub repo_aliases: Vec<String>,
    pub description: String,
    pub custom_file_path: String,
    pub workspace_aliases: Vec<String>,
}

/// The first member alias that names no repository: no earlier one does,
/// and this one does not.
pub open spec fn is_first_dangling(config: ReportalConfig, aliases: Seq<String>, j: int) -> bool {
    &&& 0 <= j < aliases.len()
    &&& repo_lookup(config.repos@, aliases[j]@) is None
    &&& forall|k: int| 0 <= k < j ==> repo_lookup(config.repos@, #[trigger] aliases[k]@) is Some
}

/// The create request passes the checks: a name, at least one member, a
/// free name, and every member a registered repository.
pub open spec fn creatable(config: ReportalConfig, create_parts: WorkspaceCreateParts) -> bool {
    &&& create_parts.workspace_name@.len() > 0
    &&& create_parts.repo_aliases@.len() > 0
    &&& key_position(config.workspaces@, create_parts.workspace_name@) is None
    &&& forall|i: int|
        0 <= i < create_parts.repo_aliases@.len() ==> repo_lookup(
            config.repos@,
            (#[trigger] create_parts.repo_aliases@[i])@,
        ) is Some
}

/// Registers the workspace: its members are the given repositories in
/// order, its directory comes from the custom path. Fails, in this order,
/// with a `ValidationFailure` on `workspace name` for an empty name or on
/// `workspace members` for no members, with `WorkspaceAlreadyRegistered`
/// when the name is taken, and with `WorkspaceHasDanglingRepo` for the
/// first member that names no repository; the registry is then unchanged.
pub fn run_workspace_create(loaded_config: &mut ReportalConfig, create_parts: WorkspaceCreateParts) -> (created:
    Result<(), ReportalError>)
    requires
        old(loaded_config).wf(),
    ensures
        final(loaded_config).wf(),
        crate::config::same_settings(*final(loaded_config), *old(loaded_config)),
        final(loaded_config).repos == old(loaded_config).repos,
        created is Ok <==> creatable(*old(loaded_config), create_parts),
        created is Err ==> final(loaded_config).workspaces@ == old(loaded_config).workspaces@,
        create_parts.workspace_name@.len() == 0 ==> (created matches Err(
            ReportalError::ValidationFailure { field, reason },
        ) && field@ == "workspace name"@ && reason@ == "must not be empty"@),
        create_parts.workspace_name@.len() > 0 && create_parts.repo_aliases@.len() == 0 ==> (created matches Err(
            ReportalError::ValidationFailure { field, reason },
        ) && field@ == "workspace members"@ && reason@ == "must list at least one repo"@),
        create_parts.workspace_name@.len() > 0 && create_parts.repo_aliases@.len() > 0 && key_position(
            old(loaded_config).workspaces@,
            create_parts.workspace_name@,
        ) is Some ==> (created matches Err(ReportalError::WorkspaceAlreadyRegistered { name }) && name@
            == create_parts.workspace_name@),
        create_parts.workspace_name@.len() > 0 && key_position(
            old(loaded_config).workspaces@,
            create_parts.workspace_name@,
        ) is None ==> forall|j: int|
            #[trigger] is_first_dangling(*old(loaded_config), create_parts.repo_aliases@, j) ==> (created matches Err(
                ReportalError::WorkspaceHasDanglingRepo { workspace, repo_alias },
            ) && workspace@ == create_parts.workspace_name@ && repo_alias@ == create_parts.repo_aliases@[j]@),
        created is Ok ==> exists|position: int, entry: WorkspaceEntry|
            0 <= position <= old(loaded_config).workspaces@.len() && final(loaded_config).workspaces@
                == old(loaded_config).workspaces@.insert(position, (create_parts.workspace_name, entry))
                && entry.members@.len() == create_parts.repo_aliases@.len() && (forall|i: int|
                0 <= i < entry.members@.len() ==> (#[trigger] entry.members@[i]) is RegisteredRepo
                    && listed_alias(entry.members@[i]) == create_parts.repo_aliases@[i]@)
                && entry.description@ == create_parts.description@ && entry.directory@
                == directory_from_custom_path(create_parts.custom_file_path@) && string_views(
                entry.aliases@,
            ) == string_views(create_parts.workspace_aliases@),
{
    if create_parts.workspace_name.as_str().is_empty() {
        return Err(ReportalError::ValidationFailure {
            field: "workspace name".to_owned(),
            reason: "must not be empty".to_owned(),
        });
    }
    if create_parts.repo_aliases.len() == 0 {
        return Err(ReportalError::ValidationFailure {
            field: "workspace members".to_owned(),
            reason: "must list at least one repo".to_owned(),
        });
    }
    if loaded_config.workspace_position(create_parts.workspace_name.as_str()).is_some() {
        return Err(ReportalError::WorkspaceAlreadyRegistered { name: create_parts.workspace_name });
    }
    let mut checked: usize = 0;
    while checked < create_parts.repo_aliases.len()
        invariant
            loaded_config.wf(),
            *loaded_config == *old(loaded_config),
            create_parts.workspace_name@.len() > 0,
            create_parts.repo_aliases@.len() > 0,
            key_position(loaded_config.workspaces@, create_parts.workspace_name@) is None,
            checked <= create_parts.repo_aliases@.len(),
            forall|k: int|
                0 <= k < checked ==> repo_lookup(
                    loaded_config.repos@,
                    (#[trigger] create_parts.repo_aliases@[k])@,
                ) is Some,
        decreases create_parts.repo_aliases@.len() - checked,
    {
        match loaded_config.get_repo(create_parts.repo_aliases[checked].as_str()) {
            Ok(_) => {},
            Err(_) => {
                proof {
                    assert forall|j: int|
                        #[trigger] is_first_dangling(
                            *loaded_config,
                            create_parts.repo_aliases@,
                            j,
                        ) implies j == checked as int by {
                        if j < checked {
                        } else if j > checked {
                            assert(repo_lookup(loaded_config.repos@, create_parts.repo_aliases@[checked as int]@) is Some);
                        }
                    }
                }
                return Err(ReportalError::WorkspaceHasDanglingRepo {
                    workspace: create_parts.workspace_name,
                    repo_alias: create_parts.repo_aliases[checked].clone(),
                });
            },
        }
        checked = checked + 1;
    }
    let directory = reinterpret_custom_path_as_directory(create_parts.custom_file_path.as_str());
    let mut members: Vec<WorkspaceMember> = Vec::new();
    let mut index: usize = 0;
    while index < create_parts.repo_aliases.len()
        invariant
            index <= create_parts.repo_aliases@.len(),
            members@.len() == index,
            forall|i: int|
                0 <= i < index ==> (#[trigger] members@[i]) is RegisteredRepo && listed_alias(members@[i])
                    == create_parts.repo_aliases@[i]@,
        decreases create_parts.repo_aliases@.len() - index,
    {
        members.push(WorkspaceMember::RegisteredRepo(create_parts.repo_aliases[index].clone()));
        index = index + 1;
    }
    let mut entry = WorkspaceEntry::of_members(members);
    entry.description = create_parts.description;
    entry.directory = directory;
    entry.aliases = create_parts.workspace_aliases;
    loaded_config.add_workspace(create_parts.workspace_name, entry)
}

} // verus!
