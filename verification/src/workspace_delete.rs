//! `rep workspace delete`: unregistering a workspace.

use vstd::prelude::*;
use crate::config::{ReportalConfig, workspace_lookup};
use crate::error::{ReportalError, is_workspace_not_found};
use crate::home::home_view;
use crate::workspace_operations::{WorkspaceRegenerator, workspace_directory_of};

verus! {

/// Unregisters the workspace that `alias_or_canonical` selects and
/// returns its canonical name and the directory it had, for purging or
/// reporting. Fails with `WorkspaceNotFound` for an unknown name, and
/// with `ConfigIoFailure` when the directory needs a missing home
/// directory; the registry is then unchanged.
pub fn run_workspace_delete(loaded_config: &mut ReportalConfig, alias_or_canonical: &str, home: &Option<String>) -> (deleted:
    Result<(String, String), ReportalError>)
    requires
        old(loaded_config).wf(),
    ensures
        final(loaded_config).wf(),
        crate::config::same_settings(*final(loaded_config), *old(loaded_config)),
        final(loaded_config).repos == old(loaded_config).repos,
        deleted is Err ==> final(loaded_config).workspaces@ == old(loaded_config).workspaces@,
        match workspace_lookup(old(loaded_config).workspaces@, alias_or_canonical@) {
            None => deleted matches Err(error) && is_workspace_not_found(error, alias_or_canonical@),
            Some(index) => match workspace_directory_of(
                old(loaded_config).workspaces@[index].1,
                old(loaded_config).workspaces@[index].0@,
                home_view(*home),
            ) {
                None => deleted matches Err(error) && error is ConfigIoFailure,
                Some(directory) => deleted matches Ok((name, found)) && name@ == old(loaded_config).workspaces@[index].0@ && found@ == directory && final(loaded_config).workspaces@
                    == old(loaded_config).workspaces@.remove(index),
            },
        },
{
    let canonical_name = match loaded_config.resolve_workspace_canonical_name(alias_or_canonical) {
        Ok(name) => name,
        Err(error) => {
            return Err(error);
        },
    };
    proof {
        crate::config::lemma_workspace_lookup_bounds(loaded_config.workspaces@, alias_or_canonical@);
        let lookup = workspace_lookup(loaded_config.workspaces@, alias_or_canonical@)->0;
        crate::key_order::lemma_sorted_key_position(loaded_config.workspaces@, lookup);
    }
    let workspace_directory = {
        let regenerator = WorkspaceRegenerator::for_config(loaded_config);
        match regenerator.resolve_workspace_directory(canonical_name.as_str(), home) {
            Ok(directory) => directory,
            Err(error) => {
                return Err(error);
            },
        }
    };
    let ghost before = loaded_config.workspaces@;
    match loaded_config.remove_workspace(canonical_name.as_str()) {
        Ok(entry) => {
            proof {
                let i = choose|i: int|
                    0 <= i < before.len() && before[i].0@ == canonical_name@ && before[i].1 == entry
                        && loaded_config.workspaces@ == before.remove(i);
                crate::key_order::lemma_sorted_key_position(before, i);
            }
        },
        Err(error) => {
            return Err(error);
        },
    }
    Ok((canonical_name, workspace_directory))
}

} // verus!
