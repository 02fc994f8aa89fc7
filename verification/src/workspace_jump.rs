//! `rep workspace jump`: the directory holding a workspace's
//! `.code-workspace` file, for the shell wrapper to `cd` into.

use vstd::prelude::*;
use crate::config::{workspace_lookup, ReportalConfig};
use crate::direct_alias_router::{jump_directory, lands_in, DirectAliasRouter, WorkspaceJump};
use crate::error::{is_workspace_not_found, ReportalError};
use crate::home::{home_view, is_missing_home};
use crate::workspace_layout::workspace_file_in;
use crate::workspace_operations::workspace_directory_of;
use crate::workspace_selection::select_workspace;

verus! {

/// The result jumps into the directory of workspace `index` (the parent of
/// its workspace file), or fails with `ConfigIoFailure` when its directory
/// needs a home directory that is unknown.
pub open spec fn jumps_to_workspace(
    target: Result<WorkspaceJump, ReportalError>,
    loaded_config: ReportalConfig,
    home: Option<String>,
    index: int,
) -> bool {
    match workspace_directory_of(
        loaded_config.workspaces@[index].1,
        loaded_config.workspaces@[index].0@,
        home_view(home),
    ) {
        Some(directory) => target matches Ok(found) && lands_in(
            found,
            loaded_config,
            jump_directory(workspace_file_in(directory, loaded_config.workspaces@[index].0@)),
        ),
        None => target matches Err(error) && is_missing_home(error),
    }
}

/// The directory a workspace jump lands in. An empty name uses the
/// workspace menu answer (`NoWorkspacesConfigured` with no workspaces, a
/// cancel for a dismissed menu or an index past its end); otherwise the
/// name or alias selects the workspace, or `WorkspaceNotFound`.
pub fn run_workspace_jump(
    loaded_config: &ReportalConfig,
    alias_or_canonical: &str,
    chosen_index: Option<usize>,
    home: &Option<String>,
) -> (target: Result<WorkspaceJump, ReportalError>)
    requires
        loaded_config.wf(),
    ensures
        alias_or_canonical@.len() == 0 ==> if loaded_config.workspaces@.len() == 0 {
            target matches Err(ReportalError::NoWorkspacesConfigured)
        } else {
            match chosen_index {
                Some(row) if row < loaded_config.workspaces@.len() => jumps_to_workspace(
                    target,
                    *loaded_config,
                    *home,
                    row as int,
                ),
                _ => target matches Err(ReportalError::SelectionCancelled),
            }
        },
        alias_or_canonical@.len() > 0 ==> match workspace_lookup(loaded_config.workspaces@, alias_or_canonical@) {
            None => target matches Err(error) && is_workspace_not_found(error, alias_or_canonical@),
            Some(index) => jumps_to_workspace(target, *loaded_config, *home, index),
        },
{
    let canonical_workspace_name = if alias_or_canonical.is_empty() {
        match select_workspace(loaded_config, chosen_index) {
            Ok(name) => name,
            Err(error) => {
                return Err(error);
            },
        }
    } else {
        match loaded_config.resolve_workspace_canonical_name(alias_or_canonical) {
            Ok(name) => name,
            Err(error) => {
                return Err(error);
            },
        }
    };
    proof {
        if alias_or_canonical@.len() > 0 {
            crate::config::lemma_workspace_lookup_bounds(loaded_config.workspaces@, alias_or_canonical@);
            let lookup = workspace_lookup(loaded_config.workspaces@, alias_or_canonical@)->0;
            crate::key_order::lemma_sorted_key_position(loaded_config.workspaces@, lookup);
        } else {
            crate::key_order::lemma_sorted_key_position(loaded_config.workspaces@, chosen_index->0 as int);
        }
    }
    let router = DirectAliasRouter::for_config(loaded_config);
    router.jump_to_workspace_parent(canonical_workspace_name.as_str(), home)
}

} // verus!
