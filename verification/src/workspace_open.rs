//! `rep workspace open`: the layout to write for a workspace and the
//! editor to launch on its `.code-workspace` file.

use vstd::prelude::*;
use crate::config::{workspace_lookup, ReportalConfig};
use crate::error::{is_repo_not_found, is_workspace_not_found, ReportalError};
use crate::home::home_view;
use crate::key_order::key_position;
use crate::workspace_layout::WorkspaceLayoutPlan;
use crate::workspace_operations::{first_missing_member, is_layout_of, workspace_directory_of, WorkspaceRegenerator};
use crate::workspace_selection::select_workspace;

verus! {

/// What opening a workspace needs: its canonical name, the layout to
/// write, and the editor to launch on the workspace file.
pub struct WorkspaceOpenPlan {
    pub canonical_name: String,
    pub layout: WorkspaceLayoutPlan,
    pub editor_command: String,
}

/// The result opens workspace `index`: a member that names no repository
/// gives `RepoNotFound`, a directory that needs an unknown home directory
/// gives `ConfigIoFailure`, and otherwise the plan lays the workspace out
/// in its directory and launches the default editor.
pub open spec fn opens_workspace(
    opened: Result<WorkspaceOpenPlan, ReportalError>,
    loaded_config: ReportalConfig,
    home: Option<String>,
    index: int,
) -> bool {
    let (name, entry) = loaded_config.workspaces@[index];
    match first_missing_member(loaded_config.repos@, entry.members@, 0) {
        Some(alias) => opened matches Err(error) && is_repo_not_found(error, alias),
        None => match workspace_directory_of(entry, name@, home_view(home)) {
            None => opened matches Err(error) && error is ConfigIoFailure,
            Some(directory) => opened matches Ok(plan) && plan.canonical_name@ == name@
                && plan.editor_command@ == loaded_config.default_editor@ && is_layout_of(
                plan.layout,
                loaded_config.repos@,
                entry,
                name@,
                directory,
                home,
            ),
        },
    }
}

/// The plan for opening the workspace registered under exactly
/// `canonical_name`.
pub fn open_plan_for(loaded_config: &ReportalConfig, canonical_name: &str, home: &Option<String>) -> (opened: Result<
    WorkspaceOpenPlan,
    ReportalError,
>)
    requires
        loaded_config.wf(),
    ensures
        match key_position(loaded_config.workspaces@, canonical_name@) {
            None => opened matches Err(error) && is_workspace_not_found(error, canonical_name@),
            Some(index) => opens_workspace(opened, *loaded_config, *home, index),
        },
{
    proof {
        if let Some(index) = key_position(loaded_config.workspaces@, canonical_name@) {
            assert(loaded_config.workspaces@[index].0@ == canonical_name@);
        }
    }
    let regenerator = WorkspaceRegenerator::for_config(loaded_config);
    match regenerator.regenerate_workspace_file(canonical_name, home) {
        Ok(layout) => Ok(
            WorkspaceOpenPlan {
                canonical_name: canonical_name.to_owned(),
                layout,
                editor_command: loaded_config.default_editor.clone(),
            },
        ),
        Err(error) => Err(error),
    }
}

/// The plan for opening the workspace named (or aliased) by
/// `alias_or_canonical`, or, for an empty name, the one the workspace
/// menu answer picks (`NoWorkspacesConfigured` with no workspaces, a
/// cancel for a dismissed menu or an index past its end). An unknown name
/// gives `WorkspaceNotFound`.
pub fn run_workspace_open(
    loaded_config: &ReportalConfig,
    alias_or_canonical: &str,
    chosen_index: Option<usize>,
    home: &Option<String>,
) -> (opened: Result<WorkspaceOpenPlan, ReportalError>)
    requires
        loaded_config.wf(),
    ensures
        alias_or_canonical@.len() == 0 ==> if loaded_config.workspaces@.len() == 0 {
            opened matches Err(ReportalError::NoWorkspacesConfigured)
        } else {
            match chosen_index {
                Some(row) if row < loaded_config.workspaces@.len() => opens_workspace(
                    opened,
                    *loaded_config,
                    *home,
                    row as int,
                ),
                _ => opened matches Err(ReportalError::SelectionCancelled),
            }
        },
        alias_or_canonical@.len() > 0 ==> match workspace_lookup(loaded_config.workspaces@, alias_or_canonical@) {
            None => opened matches Err(error) && is_workspace_not_found(error, alias_or_canonical@),
            Some(index) => opens_workspace(opened, *loaded_config, *home, index),
        },
{
    let canonical_name = if alias_or_canonical.is_empty() {
        match select_workspace(loaded_config, chosen_index) {
            Ok(name) => name,
            Err(error) => {
                return Err(error);
            },
        }
    } else {
        match loaded_config.resolve_workspace_canonical_name(alias_or_canonical) {
            Ok(name) => name,
            Err(error) => {
                return Err(error);
            },
        }
    };
    proof {
        if alias_or_canonical@.len() > 0 {
            crate::config::lemma_workspace_lookup_bounds(loaded_config.workspaces@, alias_or_canonical@);
            let lookup = workspace_lookup(loaded_config.workspaces@, alias_or_canonical@)->0;
            crate::key_order::lemma_sorted_key_position(loaded_config.workspaces@, lookup);
        } else {
            crate::key_order::lemma_sorted_key_position(loaded_config.workspaces@, chosen_index->0 as int);
        }
    }
    open_plan_for(loaded_config, canonical_name.as_str(), home)
}

} // verus!
