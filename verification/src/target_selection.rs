//! One menu for "go somewhere": the repositories that pass the tag filter,
//! in key order, followed by the workspaces when no tag restricts the
//! menu (workspaces carry no tags).

use vstd::prelude::*;
use crate::config::{filtered_positions, lemma_filtered_positions_in_range, ReportalConfig, TagFilter};
use crate::error::ReportalError;
use crate::repo_selection::{repo_label, repo_menu_label};
use crate::workspace_selection::{workspace_label, workspace_menu_label};

verus! {

/// What the menu picked, by canonical key.
pub enum SelectedTarget {
    /// A repository, by its key.
    Repo(String),
    /// A workspace, by its name.
    Workspace(String),
}

/// What the menu is built from.
pub struct SelectedTargetParameters<'borrow> {
    /// The registry to draw rows from.
    pub loaded_config: &'borrow ReportalConfig,
    /// Which repositories to show; workspaces show only under `All`.
    pub tag_filter: &'borrow TagFilter,
    /// The menu's prompt.
    pub prompt_label: &'borrow str,
}

/// The number of workspace rows under a filter.
pub open spec fn workspace_row_count(loaded_config: ReportalConfig, filter: TagFilter) -> int {
    match filter {
        TagFilter::All => loaded_config.workspaces@.len() as int,
        TagFilter::ByTag(_) => 0,
    }
}

/// The label of menu row `row`: repository rows first, then workspaces.
pub open spec fn target_row_label(loaded_config: ReportalConfig, filter: TagFilter, row: int) -> Seq<char> {
    let repo_rows = filtered_positions(loaded_config.repos@, filter, 0);
    if row < repo_rows.len() {
        repo_menu_label(loaded_config.repos@[repo_rows[row]].0@, loaded_config.repos@[repo_rows[row]].1)
    } else {
        workspace_menu_label(
            loaded_config.workspaces@[row - repo_rows.len()].0@,
            loaded_config.workspaces@[row - repo_rows.len()].1,
        )
    }
}

/// The rows of the menu: each repository label (shown after its color
/// swatch), then each workspace label.
pub fn target_menu_labels(params: &SelectedTargetParameters<'_>) -> (labels: Vec<String>)
    ensures
        labels@.len() == filtered_positions(params.loaded_config.repos@, *params.tag_filter, 0).len()
            + workspace_row_count(*params.loaded_config, *params.tag_filter),
        forall|row: int|
            0 <= row < labels@.len() ==> (#[trigger] labels@[row])@ == target_row_label(
                *params.loaded_config,
                *params.tag_filter,
                row,
            ),
{
    let loaded_config = params.loaded_config;
    let matching = loaded_config.repos_matching_tag_filter(params.tag_filter);
    let ghost repo_rows = filtered_positions(loaded_config.repos@, *params.tag_filter, 0);
    proof {
        lemma_filtered_positions_in_range(loaded_config.repos@, *params.tag_filter, 0);
        assert(matching@.len() == repo_rows.len());
        assert forall|k: int| 0 <= k < matching@.len() implies matching@[k] as int == repo_rows[k] by {
            assert(matching@.map_values(|p: usize| p as int)[k] == matching@[k] as int);
        }
    }
    let mut labels: Vec<String> = Vec::new();
    let mut index: usize = 0;
    while index < matching.len()
        invariant
            index <= matching@.len(),
            matching@.len() == repo_rows.len(),
            repo_rows == filtered_positions(loaded_config.repos@, *params.tag_filter, 0),
            forall|k: int| 0 <= k < matching@.len() ==> (#[trigger] matching@[k]) as int == repo_rows[k],
            forall|k: int| 0 <= k < repo_rows.len() ==> 0 <= #[trigger] repo_rows[k] < loaded_config.repos@.len(),
            labels@.len() == index,
            forall|row: int|
                0 <= row < index ==> (#[trigger] labels@[row])@ == target_row_label(
                    *loaded_config,
                    *params.tag_filter,
                    row,
                ),
        decreases matching@.len() - index,
    {
        assert(0 <= repo_rows[index as int] < loaded_config.repos@.len());
        let repo = &loaded_config.repos[matching[index]];
        labels.push(repo_label(repo.0.as_str(), &repo.1));
        index = index + 1;
    }
    if let TagFilter::All = params.tag_filter {
        let mut position: usize = 0;
        while position < loaded_config.workspaces.len()
            invariant
                position <= loaded_config.workspaces@.len(),
                *params.tag_filter == TagFilter::All,
                labels@.len() == repo_rows.len() + position,
                repo_rows == filtered_positions(loaded_config.repos@, *params.tag_filter, 0),
                forall|row: int|
                    0 <= row < labels@.len() ==> (#[trigger] labels@[row])@ == target_row_label(
                        *loaded_config,
                        *params.tag_filter,
                        row,
                    ),
            decreases loaded_config.workspaces@.len() - position,
        {
            let workspace = &loaded_config.workspaces[position];
            labels.push(workspace_label(workspace.0.as_str(), &workspace.1));
            position = position + 1;
        }
    }
    labels
}

/// The target a menu answer picked: a repository row gives its key, a
/// workspace row its name. With no rows at all the answer is
/// `NoReposMatchFilter`; a dismissed menu or an index past the last row
/// cancels.
pub fn select_target(params: &SelectedTargetParameters<'_>, chosen_index: Option<usize>) -> (selected: Result<
    SelectedTarget,
    ReportalError,
>)
    ensures
        ({
            let repos = params.loaded_config.repos@;
            let workspaces = params.loaded_config.workspaces@;
            let repo_rows = filtered_positions(repos, *params.tag_filter, 0);
            let workspace_rows = workspace_row_count(*params.loaded_config, *params.tag_filter);
            if repo_rows.len() == 0 && workspace_rows == 0 {
                selected matches Err(ReportalError::NoReposMatchFilter)
            } else {
                match chosen_index {
                    Some(row) if row < repo_rows.len() => selected matches Ok(SelectedTarget::Repo(alias))
                        && alias@ == repos[repo_rows[row as int]].0@,
                    Some(row) if row < repo_rows.len() + workspace_rows => selected matches Ok(
                        SelectedTarget::Workspace(name),
                    ) && name@ == workspaces[row - repo_rows.len()].0@,
                    _ => selected matches Err(ReportalError::SelectionCancelled),
                }
            }
        }),
{
    let loaded_config = params.loaded_config;
    let matching = loaded_config.repos_matching_tag_filter(params.tag_filter);
    let ghost repo_rows = filtered_positions(loaded_config.repos@, *params.tag_filter, 0);
    proof {
        lemma_filtered_positions_in_range(loaded_config.repos@, *params.tag_filter, 0);
        assert(matching@.len() == repo_rows.len());
    }
    let workspace_rows: usize = match params.tag_filter {
        TagFilter::All => loaded_config.workspaces.len(),
        TagFilter::ByTag(_) => 0,
    };
    if matching.len() == 0 && workspace_rows == 0 {
        return Err(ReportalError::NoReposMatchFilter);
    }
    let repo_count = matching.len();
    match chosen_index {
        Some(row) if row < repo_count => {
            assert(matching@.map_values(|p: usize| p as int)[row as int] == matching@[row as int] as int);
            assert(0 <= repo_rows[row as int] < loaded_config.repos@.len());
            Ok(SelectedTarget::Repo(loaded_config.repos[matching[row]].0.clone()))
        },
        Some(row) if row - repo_count < workspace_rows => {
            Ok(SelectedTarget::Workspace(loaded_config.workspaces[row - repo_count].0.clone()))
        },
        _ => Err(ReportalError::SelectionCancelled),
    }
}

} // verus!
