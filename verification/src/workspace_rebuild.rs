//! `rep workspace rebuild`: resolving a workspace and moving a legacy
//! workspace-file directory to the default location.

use vstd::prelude::*;
use crate::config::{ReportalConfig, workspace_lookup};
use crate::error::{ReportalError, is_workspace_not_found};
use crate::home::{default_workspace_root, home_view, resolve_default_workspace_root};
use crate::paths::{join_path, join_paths};
use crate::text::{chars_of, string_of};

verus! {

/// Resolves the workspace to rebuild and, when its configured directory
/// still names a `.code-workspace` file, moves it to
/// `<default root>/<name>`. Returns the canonical name and whether the
/// entry was migrated. Fails with `WorkspaceNotFound` for an unknown name
/// and `ConfigIoFailure` when migrating needs a missing home directory.
pub fn run_workspace_rebuild(loaded_config: &mut ReportalConfig, alias_or_canonical: &str, home: &Option<String>) -> (rebuilt:
    Result<(String, bool), ReportalError>)
    requires
        old(loaded_config).wf(),
    ensures
        final(loaded_config).wf(),
        crate::config::same_settings(*final(loaded_config), *old(loaded_config)),
        forall|i: int| 0 <= i < old(loaded_config).workspaces@.len() ==> final(loaded_config).workspaces@[i].0
            == old(loaded_config).workspaces@[i].0 && crate::config::same_apart_from_directory(
            #[trigger] final(loaded_config).workspaces@[i].1,
            old(loaded_config).workspaces@[i].1,
        ),
        final(loaded_config).repos == old(loaded_config).repos,
        final(loaded_config).workspaces@.len() == old(loaded_config).workspaces@.len(),
        rebuilt is Err ==> final(loaded_config).workspaces@ == old(loaded_config).workspaces@,
        match workspace_lookup(old(loaded_config).workspaces@, alias_or_canonical@) {
            None => rebuilt matches Err(error) && is_workspace_not_found(error, alias_or_canonical@),
            Some(index) => {
                let (name, entry) = old(loaded_config).workspaces@[index];
                if entry.legacy_file_path() {
                    match home_view(*home) {
                        None => rebuilt matches Err(error) && error is ConfigIoFailure,
                        Some(directory) => rebuilt matches Ok((canonical, true)) && canonical@ == name@
                            && final(loaded_config).workspaces@[index].1.directory@ == join_path(
                            default_workspace_root(directory),
                            name@,
                        ) && final(loaded_config).workspaces@[index].0 == name,
                    }
                } else {
                    rebuilt matches Ok((canonical, false)) && canonical@ == name@ && final(loaded_config).workspaces@ == old(loaded_config).workspaces@
                }
            },
        },
{
    let canonical_name = match loaded_config.resolve_workspace_canonical_name(alias_or_canonical) {
        Ok(name) => name,
        Err(error) => {
            return Err(error);
        },
    };
    proof {
        crate::config::lemma_workspace_lookup_bounds(loaded_config.workspaces@, alias_or_canonical@);
        let lookup = workspace_lookup(loaded_config.workspaces@, alias_or_canonical@)->0;
        crate::key_order::lemma_sorted_key_position(loaded_config.workspaces@, lookup);
    }
    let index = match loaded_config.workspace_position(canonical_name.as_str()) {
        Some(index) => index,
        None => {
            return Err(ReportalError::WorkspaceNotFound { name: canonical_name });
        },
    };
    if !loaded_config.workspaces[index].1.is_legacy_file_path() {
        return Ok((canonical_name, false));
    }
    let default_root = match resolve_default_workspace_root(home) {
        Ok(root) => root,
        Err(error) => {
            return Err(error);
        },
    };
    let root_chars = chars_of(default_root.as_str());
    let name_chars = chars_of(canonical_name.as_str());
    let new_directory = join_paths(root_chars.as_slice(), name_chars.as_slice());
    loaded_config.set_workspace_directory(index, string_of(new_directory.as_slice()));
    Ok((canonical_name, true))
}

} // verus!
