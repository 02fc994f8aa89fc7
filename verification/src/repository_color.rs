//! `rep color` by working directory, workspaces first: the tab identity
//! of the workspace whose directory holds the working directory, else of
//! the repository whose path holds it, or of a repository named directly.

use vstd::prelude::*;
use crate::color_command_mode::ColorCommandMode;
use crate::config::{repo_lookup, ReportalConfig};
use crate::error::{is_repo_not_found, ReportalError};
use crate::prompt_identity::{
    longest_match, repository_paths, title_label, workspace_directories, PromptIdentity, PromptIdentityResolver,
};
use crate::repo_color::{no_match_output, paints, ColorCommandOutput};
use crate::terminal_identity_emit::{resolve_tab_color, resolve_tab_title, TabColorAction, TerminalIdentity};

verus! {

/// What the color command was asked.
pub struct ColorCommandParameters<'command_lifetime> {
    /// A repository to paint directly; empty to resolve the working
    /// directory.
    pub repository_alias: &'command_lifetime str,
    /// How the command was invoked.
    pub mode: ColorCommandMode,
}

/// The terminal identity of a badge identity: its label, and its accent
/// color or a reset.
fn identity_of(prompt_identity: PromptIdentity) -> (identity: TerminalIdentity)
    ensures
        identity.resolved_title@ == prompt_identity.display_label@,
        match prompt_identity.accent_color {
            Some(accent) => identity.tab_color_action matches TabColorAction::SetColor(set) && set@ == accent@,
            None => identity.tab_color_action is Reset,
        },
{
    let tab_color_action = match prompt_identity.accent_color {
        Some(hex_color) => TabColorAction::SetColor(hex_color),
        None => TabColorAction::Reset,
    };
    TerminalIdentity { resolved_title: prompt_identity.display_label, tab_color_action }
}

/// What `rep color` writes. A direct alias paints that repository (or
/// fails with `RepoNotFound`). Otherwise the workspace whose directory
/// holds the working directory is painted, else the repository whose path
/// holds it; a workspace directory that cannot be resolved is a
/// `ConfigIoFailure`. The title is echoed for the prompt hook; when
/// nothing matches, a direct call resets the tab color and the prompt
/// hook leaves the terminal alone.
pub fn run_color(
    color_params: &ColorCommandParameters<'_>,
    loaded_configuration: &ReportalConfig,
    current_directory: &str,
    home: &Option<String>,
) -> (output: Result<ColorCommandOutput, ReportalError>)
    requires
        loaded_configuration.wf(),
    ensures
        color_params.repository_alias@.len() > 0 ==> match repo_lookup(
            loaded_configuration.repos@,
            color_params.repository_alias@,
        ) {
            Some(index) => output matches Ok(painted) && paints(
                painted,
                title_label(loaded_configuration.repos@[index].1.title, color_params.repository_alias@),
                loaded_configuration.repos@[index].1.color,
                color_params.mode,
            ),
            None => output matches Err(error) && is_repo_not_found(error, color_params.repository_alias@),
        },
        color_params.repository_alias@.len() == 0 ==> match workspace_directories(*loaded_configuration, *home) {
            None => output matches Err(error) && error is ConfigIoFailure,
            Some(directories) => match longest_match(directories, current_directory@) {
                Some(index) => output matches Ok(painted) && paints(
                    painted,
                    title_label(
                        loaded_configuration.workspaces@[index].1.title,
                        loaded_configuration.workspaces@[index].0@,
                    ),
                    loaded_configuration.workspaces@[index].1.color,
                    color_params.mode,
                ),
                None => match longest_match(repository_paths(*loaded_configuration, *home), current_directory@) {
                    Some(index) => output matches Ok(painted) && paints(
                        painted,
                        title_label(
                            loaded_configuration.repos@[index].1.title,
                            loaded_configuration.repos@[index].0@,
                        ),
                        loaded_configuration.repos@[index].1.color,
                        color_params.mode,
                    ),
                    None => output matches Ok(unmatched) && no_match_output(unmatched, color_params.mode),
                },
            },
        },
{
    let resolved_identity = if color_params.repository_alias.is_empty() {
        let identity_resolver = PromptIdentityResolver::for_configuration(loaded_configuration);
        match identity_resolver.resolve_from_directory(current_directory, home) {
            Ok(Some(prompt_identity)) => Some(identity_of(prompt_identity)),
            Ok(None) => None,
            Err(error) => {
                return Err(error);
            },
        }
    } else {
        match loaded_configuration.get_repo(color_params.repository_alias) {
            Ok(found_repository) => Some(
                TerminalIdentity {
                    resolved_title: resolve_tab_title(&found_repository.title, color_params.repository_alias),
                    tab_color_action: resolve_tab_color(&found_repository.color),
                },
            ),
            Err(error) => {
                return Err(error);
            },
        }
    };
    match resolved_identity {
        Some(identity) => Ok(
            ColorCommandOutput::Paint {
                identity,
                echo_title: color_params.mode == ColorCommandMode::PromptHook,
            },
        ),
        None => match color_params.mode {
            ColorCommandMode::Explicit => Ok(ColorCommandOutput::ResetTabColor),
            ColorCommandMode::PromptHook => Ok(ColorCommandOutput::LeaveUnchanged),
        },
    }
}

} // verus!
