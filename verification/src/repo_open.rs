//! `rep open`: what to open in the editor, for a repository or a
//! workspace chosen directly, or a repository chosen from the menu.

use vstd::prelude::*;
use crate::config::{repo_lookup, workspace_lookup, ReportalConfig, TagFilter};
use crate::direct_alias_router::{DirectAliasRouter, DirectAliasRouterOutcome};
use crate::error::{is_repo_not_found, ReportalError};
use crate::path_display::{echoes, print_selected_path_if_visible, SelectedPathDisplayParams};
use crate::prompt_identity::title_label;
use crate::repo_selection::{repo_choice, select_repo, RepoChoice, SelectedRepoParams};
use crate::terminal_identity_emit::{
    color_action_for, emit_repo_terminal_identity, TerminalIdentity, TerminalIdentityEmitParams,
};
use crate::workspace_open::{open_plan_for, opens_workspace, WorkspaceOpenPlan};

verus! {

/// What the open command was asked.
pub struct OpenCommandParams<'a> {
    /// Which repositories the menu shows.
    pub tag_filter: TagFilter,
    /// A repository or workspace name to open directly; empty for the menu.
    pub direct_alias: &'a str,
    /// An editor to use instead of the configured default; empty for the
    /// default.
    pub editor_override: &'a str,
    /// A tab title for this session; empty to use the repository's.
    pub title_override: &'a str,
}

/// What to open.
pub enum OpenOutcome {
    /// A repository: its expanded path (the editor opens `.` there), the
    /// editor command, the terminal identity to apply, and the path to
    /// report after launching when the registry shows selected paths.
    Repo { repo_path: String, editor_command: String, identity: TerminalIdentity, reported_path: Option<String> },
    /// A workspace, with its layout and editor.
    Workspace(WorkspaceOpenPlan),
}

/// The outcome opens repository `index`, selected by `alias`.
pub open spec fn opens_repo(
    outcome: Result<OpenOutcome, ReportalError>,
    loaded_config: ReportalConfig,
    home: Option<String>,
    index: int,
    alias: Seq<char>,
    open_params: OpenCommandParams,
) -> bool {
    let entry = loaded_config.repos@[index].1;
    outcome matches Ok(OpenOutcome::Repo { repo_path, editor_command, identity, reported_path }) && repo_path@
        == entry.resolved_path_view(home) && editor_command@ == (if open_params.editor_override@.len() > 0 {
        open_params.editor_override@
    } else {
        loaded_config.default_editor@
    }) && identity.resolved_title@ == (if open_params.title_override@.len() > 0 {
        open_params.title_override@
    } else {
        title_label(entry.title, alias)
    }) && color_action_for(identity.tab_color_action, entry.color) && echoes(loaded_config, repo_path@, reported_path)
}

/// The outcome opens workspace `index` as `rep workspace open` does.
pub open spec fn opens_workspace_target(
    outcome: Result<OpenOutcome, ReportalError>,
    loaded_config: ReportalConfig,
    home: Option<String>,
    index: int,
) -> bool {
    opens_workspace(
        match outcome {
            Ok(OpenOutcome::Workspace(plan)) => Ok(plan),
            Ok(OpenOutcome::Repo { .. }) => Err(ReportalError::SelectionCancelled),
            Err(error) => Err(error),
        },
        loaded_config,
        home,
        index,
    ) && !(outcome matches Ok(OpenOutcome::Repo { .. }))
}

fn workspace_target(
    loaded_config: &ReportalConfig,
    canonical_workspace_name: &str,
    home: &Option<String>,
    Ghost(index): Ghost<int>,
) -> (outcome: Result<OpenOutcome, ReportalError>)
    requires
        loaded_config.wf(),
        0 <= index < loaded_config.workspaces@.len(),
        loaded_config.workspaces@[index].0@ == canonical_workspace_name@,
    ensures
        opens_workspace_target(outcome, *loaded_config, *home, index),
{
    proof {
        crate::key_order::lemma_sorted_key_position(loaded_config.workspaces@, index);
    }
    match open_plan_for(loaded_config, canonical_workspace_name, home) {
        Ok(plan) => Ok(OpenOutcome::Workspace(plan)),
        Err(error) => Err(error),
    }
}

/// What `rep open` opens. With a direct name: a repository it selects (by
/// key or alias) wins, else a workspace it selects, else `RepoNotFound`.
/// Without one, the menu lists only repositories: exactly those that pass
/// the tag filter, in the repository menu order, and
/// its answer picks one. A repository opens in the override editor or the
/// default one; a workspace opens as `rep workspace open` opens it.
pub fn run_open(
    open_params: &OpenCommandParams<'_>,
    loaded_config: &ReportalConfig,
    home: &Option<String>,
    chosen_index: Option<usize>,
) -> (outcome: Result<OpenOutcome, ReportalError>)
    requires
        loaded_config.wf(),
    ensures
        open_params.direct_alias@.len() == 0 ==> match repo_choice(
            loaded_config.repos@,
            open_params.direct_alias@,
            open_params.tag_filter,
            chosen_index,
        ) {
            RepoChoice::Found(index, alias) => opens_repo(outcome, *loaded_config, *home, index, alias, *open_params),
            RepoChoice::NoneMatch => outcome matches Err(ReportalError::NoReposMatchFilter),
            _ => outcome matches Err(ReportalError::SelectionCancelled),
        },
        open_params.direct_alias@.len() > 0 ==> match repo_lookup(loaded_config.repos@, open_params.direct_alias@) {
            Some(index) => opens_repo(outcome, *loaded_config, *home, index, open_params.direct_alias@, *open_params),
            None => match workspace_lookup(loaded_config.workspaces@, open_params.direct_alias@) {
                Some(index) => opens_workspace_target(outcome, *loaded_config, *home, index),
                None => outcome matches Err(error) && is_repo_not_found(error, open_params.direct_alias@),
            },
        },
{
    let resolved_repo_alias: String = if open_params.direct_alias.is_empty() {
        let selection_params = SelectedRepoParams {
            loaded_config,
            direct_alias: "",
            tag_filter: &open_params.tag_filter,
            prompt_label: "Open in editor",
        };
        proof {
            reveal_strlit("");
        }
        match select_repo(&selection_params, chosen_index) {
            Ok(selected) => {
                proof {
                    if let RepoChoice::Found(index, _) = repo_choice(
                        loaded_config.repos@,
                        open_params.direct_alias@,
                        open_params.tag_filter,
                        chosen_index,
                    ) {
                        crate::key_order::lemma_sorted_key_position(loaded_config.repos@, index);
                    }
                }
                selected.repo_alias().to_owned()
            },
            Err(error) => {
                return Err(error);
            },
        }
    } else {
        let router = DirectAliasRouter::for_config(loaded_config);
        match router.classify(open_params.direct_alias) {
            Ok(DirectAliasRouterOutcome::RegisteredRepo) => open_params.direct_alias.to_owned(),
            Ok(DirectAliasRouterOutcome::Workspace(canonical_workspace_name)) => {
                proof {
                    crate::config::lemma_workspace_lookup_bounds(
                        loaded_config.workspaces@,
                        open_params.direct_alias@,
                    );
                }
                return workspace_target(
                    loaded_config,
                    canonical_workspace_name.as_str(),
                    home,
                    Ghost(workspace_lookup(loaded_config.workspaces@, open_params.direct_alias@)->0),
                );
            },
            Ok(DirectAliasRouterOutcome::Unknown) => {
                return Err(ReportalError::RepoNotFound { alias: open_params.direct_alias.to_owned() });
            },
            Err(error) => {
                return Err(error);
            },
        }
    };
    let selected_repo = match loaded_config.get_repo(resolved_repo_alias.as_str()) {
        Ok(entry) => entry,
        Err(error) => {
            return Err(error);
        },
    };
    let identity = emit_repo_terminal_identity(
        TerminalIdentityEmitParams {
            selected_alias: resolved_repo_alias.as_str(),
            selected_repo,
            title_override: open_params.title_override,
        },
    );
    let repo_path = selected_repo.resolved_path(home);
    let editor_command = if open_params.editor_override.is_empty() {
        loaded_config.default_editor.clone()
    } else {
        open_params.editor_override.to_owned()
    };
    let reported_path = print_selected_path_if_visible(
        &SelectedPathDisplayParams { loaded_config, resolved_path: repo_path.as_str() },
    );
    Ok(OpenOutcome::Repo { repo_path, editor_command, identity, reported_path })
}

} // verus!
