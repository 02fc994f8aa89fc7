//! `rep jump`: where the shell wrapper should `cd`, for a repository or a
//! workspace chosen directly or from the combined menu.

use vstd::prelude::*;
use crate::config::{filtered_positions, repo_lookup, workspace_lookup, ReportalConfig, TagFilter};
use crate::direct_alias_router::{jump_directory, lands_in, DirectAliasRouter, DirectAliasRouterOutcome, WorkspaceJump};
use crate::error::{is_repo_not_found, ReportalError};
use crate::home::{home_view, is_missing_home};
use crate::path_display::{echoes, format_path, formatted_path, print_selected_path_if_visible, SelectedPathDisplayParams};
use crate::prompt_identity::title_label;
use crate::target_selection::{select_target, workspace_row_count, SelectedTarget, SelectedTargetParameters};
use crate::terminal_identity_emit::{
    color_action_for, emit_repo_terminal_identity, TerminalIdentity, TerminalIdentityEmitParams,
};
use crate::workspace_layout::workspace_file_in;
use crate::workspace_operations::workspace_directory_of;

verus! {

/// What the jump command was asked.
pub struct JumpCommandParameters<'a> {
    /// Which repositories the menu shows.
    pub tag_filter: TagFilter,
    /// A repository or workspace name to jump to directly; empty for the
    /// menu.
    pub direct_alias: &'a str,
    /// A tab title for this session; empty to use the repository's.
    pub title_override: &'a str,
}

/// Where a jump lands.
pub enum JumpOutcome {
    /// A repository: the path to print for `cd`, the terminal identity to
    /// apply, and the path to echo on stderr when the registry shows
    /// selected paths.
    Repo { printed_path: String, identity: TerminalIdentity, echoed_path: Option<String> },
    /// A workspace: the jump into the directory holding its workspace
    /// file.
    Workspace(WorkspaceJump),
}

/// The outcome enters repository `index`, selected by `alias`.
pub open spec fn enters_repo(
    outcome: Result<JumpOutcome, ReportalError>,
    loaded_config: ReportalConfig,
    home: Option<String>,
    index: int,
    alias: Seq<char>,
    title_override: Seq<char>,
) -> bool {
    let entry = loaded_config.repos@[index].1;
    outcome matches Ok(JumpOutcome::Repo { printed_path, identity, echoed_path }) && printed_path@
        == formatted_path(loaded_config.path_display_format, entry.resolved_path_view(home))
        && identity.resolved_title@ == (if title_override.len() > 0 {
        title_override
    } else {
        title_label(entry.title, alias)
    }) && color_action_for(identity.tab_color_action, entry.color) && echoes(
        loaded_config,
        entry.resolved_path_view(home),
        echoed_path,
    )
}

/// The outcome enters the directory of workspace `index`, or fails with
/// `ConfigIoFailure` when that directory needs an unknown home directory.
pub open spec fn enters_workspace(
    outcome: Result<JumpOutcome, ReportalError>,
    loaded_config: ReportalConfig,
    home: Option<String>,
    index: int,
) -> bool {
    let (name, entry) = loaded_config.workspaces@[index];
    match workspace_directory_of(entry, name@, home_view(home)) {
        Some(directory) => outcome matches Ok(JumpOutcome::Workspace(landed)) && lands_in(
            landed,
            loaded_config,
            jump_directory(workspace_file_in(directory, name@)),
        ),
        None => outcome matches Err(error) && is_missing_home(error),
    }
}

fn workspace_outcome(
    router: &DirectAliasRouter<'_>,
    canonical_workspace_name: &str,
    home: &Option<String>,
    Ghost(index): Ghost<int>,
) -> (outcome: Result<JumpOutcome, ReportalError>)
    requires
        router.loaded_config.wf(),
        0 <= index < router.loaded_config.workspaces@.len(),
        router.loaded_config.workspaces@[index].0@ == canonical_workspace_name@,
    ensures
        enters_workspace(outcome, *router.loaded_config, *home, index),
{
    proof {
        crate::key_order::lemma_sorted_key_position(router.loaded_config.workspaces@, index);
    }
    match router.jump_to_workspace_parent(canonical_workspace_name, home) {
        Ok(jump) => Ok(JumpOutcome::Workspace(jump)),
        Err(error) => Err(error),
    }
}

/// Where `rep jump` lands. With a direct name: a repository it selects
/// (by key or alias) wins, else a workspace it selects, else
/// `RepoNotFound`. Without one, the combined menu answer picks a
/// repository row or a workspace row (see [`select_target`]). A
/// repository jump prints the repository's expanded path and applies its
/// terminal identity; a workspace jump lands in the directory of its
/// workspace file.
pub fn run_jump(
    jump_params: &JumpCommandParameters<'_>,
    loaded_config: &ReportalConfig,
    home: &Option<String>,
    chosen_index: Option<usize>,
) -> (outcome: Result<JumpOutcome, ReportalError>)
    requires
        loaded_config.wf(),
    ensures
        jump_params.direct_alias@.len() == 0 ==> ({
            let repo_rows = filtered_positions(loaded_config.repos@, jump_params.tag_filter, 0);
            let workspace_rows = workspace_row_count(*loaded_config, jump_params.tag_filter);
            if repo_rows.len() == 0 && workspace_rows == 0 {
                outcome matches Err(ReportalError::NoReposMatchFilter)
            } else {
                match chosen_index {
                    Some(row) if row < repo_rows.len() => enters_repo(
                        outcome,
                        *loaded_config,
                        *home,
                        repo_rows[row as int],
                        loaded_config.repos@[repo_rows[row as int]].0@,
                        jump_params.title_override@,
                    ),
                    Some(row) if row < repo_rows.len() + workspace_rows => enters_workspace(
                        outcome,
                        *loaded_config,
                        *home,
                        row - repo_rows.len(),
                    ),
                    _ => outcome matches Err(ReportalError::SelectionCancelled),
                }
            }
        }),
        jump_params.direct_alias@.len() > 0 ==> match repo_lookup(loaded_config.repos@, jump_params.direct_alias@) {
            Some(index) => enters_repo(
                outcome,
                *loaded_config,
                *home,
                index,
                jump_params.direct_alias@,
                jump_params.title_override@,
            ),
            None => match workspace_lookup(loaded_config.workspaces@, jump_params.direct_alias@) {
                Some(index) => enters_workspace(outcome, *loaded_config, *home, index),
                None => outcome matches Err(error) && is_repo_not_found(error, jump_params.direct_alias@),
            },
        },
{
    let router = DirectAliasRouter::for_config(loaded_config);
    let resolved_repo_alias: String = if jump_params.direct_alias.is_empty() {
        let target_params = SelectedTargetParameters {
            loaded_config,
            tag_filter: &jump_params.tag_filter,
            prompt_label: "Jump to repo or workspace",
        };
        match select_target(&target_params, chosen_index) {
            Ok(SelectedTarget::Repo(chosen_repo_alias)) => {
                proof {
                    let repo_rows = filtered_positions(loaded_config.repos@, jump_params.tag_filter, 0);
                    crate::config::lemma_filtered_positions_in_range(
                        loaded_config.repos@,
                        jump_params.tag_filter,
                        0,
                    );
                    let row = chosen_index->0 as int;
                    crate::key_order::lemma_sorted_key_position(loaded_config.repos@, repo_rows[row]);
                }
                chosen_repo_alias
            },
            Ok(SelectedTarget::Workspace(canonical_workspace_name)) => {
                let ghost repo_rows = filtered_positions(loaded_config.repos@, jump_params.tag_filter, 0);
                return workspace_outcome(
                    &router,
                    canonical_workspace_name.as_str(),
                    home,
                    Ghost(chosen_index->0 - repo_rows.len()),
                );
            },
            Err(error) => {
                return Err(error);
            },
        }
    } else {
        match router.classify(jump_params.direct_alias) {
            Ok(DirectAliasRouterOutcome::RegisteredRepo) => jump_params.direct_alias.to_owned(),
            Ok(DirectAliasRouterOutcome::Workspace(canonical_workspace_name)) => {
                proof {
                    crate::config::lemma_workspace_lookup_bounds(
                        loaded_config.workspaces@,
                        jump_params.direct_alias@,
                    );
                }
                return workspace_outcome(
                    &router,
                    canonical_workspace_name.as_str(),
                    home,
                    Ghost(workspace_lookup(loaded_config.workspaces@, jump_params.direct_alias@)->0),
                );
            },
            Ok(DirectAliasRouterOutcome::Unknown) => {
                return Err(ReportalError::RepoNotFound { alias: jump_params.direct_alias.to_owned() });
            },
            Err(error) => {
                return Err(error);
            },
        }
    };
    let selected_repo = match loaded_config.get_repo(resolved_repo_alias.as_str()) {
        Ok(entry) => entry,
        Err(error) => {
            return Err(error);
        },
    };
    let identity = emit_repo_terminal_identity(
        TerminalIdentityEmitParams {
            selected_alias: resolved_repo_alias.as_str(),
            selected_repo,
            title_override: jump_params.title_override,
        },
    );
    let resolved_path = selected_repo.resolved_path(home);
    let echoed_path = print_selected_path_if_visible(
        &SelectedPathDisplayParams { loaded_config, resolved_path: resolved_path.as_str() },
    );
    let printed_path = format_path(loaded_config.path_display_format, resolved_path.as_str());
    Ok(JumpOutcome::Repo { printed_path, identity, echoed_path })
}

} // verus!
