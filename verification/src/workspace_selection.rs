//! Choosing a workspace from a menu.

use vstd::prelude::*;
use crate::config::{ReportalConfig, WorkspaceEntry};
use crate::error::ReportalError;
use crate::text::{extend_str, join, join_strings, string_of, string_views, uppercase};

verus! {

/// A workspace's menu label: `▣▣ NAME`, its aliases in parentheses, its
/// description after a dash, and `[workspace]`.
pub open spec fn workspace_menu_label(name: Seq<char>, entry: WorkspaceEntry) -> Seq<char> {
    "▣▣ "@ + uppercase(name) + (if entry.aliases@.len() > 0 {
        " ("@ + join(string_views(entry.aliases@), ", "@) + ")"@
    } else {
        Seq::empty()
    }) + (if entry.description@.len() > 0 {
        " — "@ + entry.description@
    } else {
        Seq::empty()
    }) + " [workspace]"@
}

/// The menu label of a workspace.
pub fn workspace_label(workspace_name: &str, workspace_entry: &WorkspaceEntry) -> (label: String)
    ensures
        label@ == workspace_menu_label(workspace_name@, *workspace_entry),
{
    let mut text: Vec<char> = Vec::new();
    extend_str(&mut text, "▣▣ ");
    let upper = crate::text::to_uppercase_text(workspace_name);
    extend_str(&mut text, upper.as_str());
    if workspace_entry.aliases.len() > 0 {
        extend_str(&mut text, " (");
        let joined = join_strings(&workspace_entry.aliases, ", ");
        extend_str(&mut text, joined.as_str());
        extend_str(&mut text, ")");
    }
    if !workspace_entry.description.as_str().is_empty() {
        extend_str(&mut text, " — ");
        extend_str(&mut text, workspace_entry.description.as_str());
    }
    extend_str(&mut text, " [workspace]");
    string_of(text.as_slice())
}

/// The workspace menu in name order; `NoWorkspacesConfigured` when there
/// is no workspace.
pub fn workspace_menu(loaded_config: &ReportalConfig) -> (labels: Result<Vec<String>, ReportalError>)
    ensures
        loaded_config.workspaces@.len() == 0 ==> labels matches Err(ReportalError::NoWorkspacesConfigured),
        loaded_config.workspaces@.len() > 0 ==> (labels matches Ok(list) && list@.len()
            == loaded_config.workspaces@.len() && forall|i: int|
            0 <= i < list@.len() ==> (#[trigger] list@[i])@ == workspace_menu_label(
                loaded_config.workspaces@[i].0@,
                loaded_config.workspaces@[i].1,
            )),
{
    if loaded_config.workspaces.len() == 0 {
        return Err(ReportalError::NoWorkspacesConfigured);
    }
    let mut labels: Vec<String> = Vec::new();
    let mut index: usize = 0;
    while index < loaded_config.workspaces.len()
        invariant
            index <= loaded_config.workspaces@.len(),
            labels@.len() == index,
            forall|i: int|
                0 <= i < index ==> (#[trigger] labels@[i])@ == workspace_menu_label(
                    loaded_config.workspaces@[i].0@,
                    loaded_config.workspaces@[i].1,
                ),
        decreases loaded_config.workspaces@.len() - index,
    {
        let workspace = &loaded_config.workspaces[index];
        labels.push(workspace_label(workspace.0.as_str(), &workspace.1));
        index = index + 1;
    }
    Ok(labels)
}

/// The workspace a menu answer picked; no workspaces gives
/// `NoWorkspacesConfigured`, and dismissing the menu or an index past its
/// end cancels.
pub fn select_workspace(loaded_config: &ReportalConfig, chosen_index: Option<usize>) -> (selected: Result<
    String,
    ReportalError,
>)
    ensures
        loaded_config.workspaces@.len() == 0 ==> selected matches Err(ReportalError::NoWorkspacesConfigured),
        loaded_config.workspaces@.len() > 0 ==> match chosen_index {
            Some(index) if index < loaded_config.workspaces@.len() => selected matches Ok(name) && name@
                == loaded_config.workspaces@[index as int].0@,
            _ => selected matches Err(ReportalError::SelectionCancelled),
        },
{
    if loaded_config.workspaces.len() == 0 {
        return Err(ReportalError::NoWorkspacesConfigured);
    }
    match chosen_index {
        Some(index) if index < loaded_config.workspaces.len() => Ok(loaded_config.workspaces[index].0.clone()),
        _ => Err(ReportalError::SelectionCancelled),
    }
}

} // verus!
