//! `rep workspace list`: every workspace with its details.

use vstd::prelude::*;
use crate::config::{ReportalConfig, registered_aliases};
use crate::home::home_view;
use crate::key_order::lemma_sorted_key_position;
use crate::text::{join, join_strings, string_views, uppercase};
use crate::workspace_operations::{WorkspaceRegenerator, workspace_directory_of};

verus! {

/// One workspace in the list.
pub struct WorkspaceListEntry {
    pub uppercase_name: String,
    pub description: String,
    pub aliases_joined: String,
    /// Its directory, when it resolves.
    pub directory: Option<String>,
    pub members_joined: String,
}

/// The entries of the workspaces, in name order; empty when there are
/// none (the caller then prints the hint to create one).
pub fn run_workspace_list(loaded_config: &ReportalConfig, home: &Option<String>) -> (entries: Vec<
    WorkspaceListEntry,
>)
    requires
        loaded_config.wf(),
    ensures
        entries@.len() == loaded_config.workspaces@.len(),
        forall|i: int|
            0 <= i < entries@.len() ==> {
                let (name, entry) = loaded_config.workspaces@[i];
                &&& (#[trigger] entries@[i]).uppercase_name@ == uppercase(name@)
                &&& entries@[i].description@ == entry.description@
                &&& entries@[i].aliases_joined@ == join(string_views(entry.aliases@), ", "@)
                &&& entries@[i].members_joined@ == join(registered_aliases(entry.members@), ", "@)
                &&& match workspace_directory_of(entry, name@, home_view(*home)) {
                    Some(directory) => entries@[i].directory matches Some(found) && found@ == directory,
                    None => entries@[i].directory is None,
                }
            },
{
    let regenerator = WorkspaceRegenerator::for_config(loaded_config);
    let mut entries: Vec<WorkspaceListEntry> = Vec::new();
    let mut index: usize = 0;
    while index < loaded_config.workspaces.len()
        invariant
            loaded_config.wf(),
            regenerator.config_registry == loaded_config,
            index <= loaded_config.workspaces@.len(),
            entries@.len() == index,
            forall|i: int|
                0 <= i < index ==> {
                    let (name, entry) = loaded_config.workspaces@[i];
                    &&& (#[trigger] entries@[i]).uppercase_name@ == uppercase(name@)
                    &&& entries@[i].description@ == entry.description@
                    &&& entries@[i].aliases_joined@ == join(string_views(entry.aliases@), ", "@)
                    &&& entries@[i].members_joined@ == join(registered_aliases(entry.members@), ", "@)
                    &&& match workspace_directory_of(entry, name@, home_view(*home)) {
                        Some(directory) => entries@[i].directory matches Some(found) && found@
                            == directory,
                        None => entries@[i].directory is None,
                    }
                },
        decreases loaded_config.workspaces@.len() - index,
    {
        let workspace = &loaded_config.workspaces[index];
        proof {
            lemma_sorted_key_position(loaded_config.workspaces@, index as int);
        }
        let directory = match regenerator.resolve_workspace_directory(workspace.0.as_str(), home) {
            Ok(found) => Some(found),
            Err(_) => None,
        };
        let member_aliases = workspace.1.repo_aliases();
        entries.push(
            WorkspaceListEntry {
                uppercase_name: crate::text::to_uppercase_text(workspace.0.as_str()),
                description: workspace.1.description.clone(),
                aliases_joined: join_strings(&workspace.1.aliases, ", "),
                directory,
                members_joined: join_strings(&member_aliases, ", "),
            },
        );
        index = index + 1;
    }
    entries
}

} // verus!
