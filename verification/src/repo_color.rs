//! `rep color` by repository path: the tab identity of the repository
//! named directly, or of the one whose path holds the working directory
//! (longest path wins).

use vstd::prelude::*;
use crate::color_command_mode::ColorCommandMode;
use crate::config::{repo_lookup, ReportalConfig};
use crate::error::{is_repo_not_found, ReportalError};
use crate::prompt_identity::{longest_match, longest_prefix_match, repository_paths, title_label};
use crate::terminal_identity_emit::{color_action_for, resolve_tab_color, resolve_tab_title, TerminalIdentity};

verus! {

/// What the color command was asked.
pub struct ColorCommandParams<'a> {
    /// A repository to paint directly; empty to match the working directory.
    pub repo_alias: &'a str,
    /// How the command was invoked.
    pub mode: ColorCommandMode,
}

/// What the color command writes.
pub enum ColorCommandOutput {
    /// Write the identity to the terminal, and its title to stdout when
    /// `echo_title` is set.
    Paint { identity: TerminalIdentity, echo_title: bool },
    /// Reset the tab color to the terminal default.
    ResetTabColor,
    /// Leave the terminal as it is.
    LeaveUnchanged,
}

/// The output paints the given title and the color of `color`, echoing
/// the title for the prompt hook only.
pub open spec fn paints(
    output: ColorCommandOutput,
    title: Seq<char>,
    color: crate::config::RepoColor,
    mode: ColorCommandMode,
) -> bool {
    output matches ColorCommandOutput::Paint { identity, echo_title } && identity.resolved_title@ == title
        && color_action_for(identity.tab_color_action, color) && echo_title == (mode == ColorCommandMode::PromptHook)
}

/// When nothing matches: a direct call resets the tab color, the prompt
/// hook leaves it.
pub open spec fn no_match_output(output: ColorCommandOutput, mode: ColorCommandMode) -> bool {
    match mode {
        ColorCommandMode::Explicit => output is ResetTabColor,
        ColorCommandMode::PromptHook => output is LeaveUnchanged,
    }
}

/// The repository whose expanded path holds the directory, by longest
/// path, as its identity.
fn resolve_from_working_directory(loaded_config: &ReportalConfig, current_directory: &str, home: &Option<String>) -> (resolved:
    Option<TerminalIdentity>)
    ensures
        match longest_match(repository_paths(*loaded_config, *home), current_directory@) {
            Some(index) => resolved matches Some(identity) && identity.resolved_title@ == title_label(
                loaded_config.repos@[index].1.title,
                loaded_config.repos@[index].0@,
            ) && color_action_for(identity.tab_color_action, loaded_config.repos@[index].1.color),
            None => resolved is None,
        },
{
    let mut paths: Vec<String> = Vec::new();
    let mut index: usize = 0;
    while index < loaded_config.repos.len()
        invariant
            index <= loaded_config.repos@.len(),
            crate::text::string_views(paths@) == repository_paths(*loaded_config, *home).take(index as int),
        decreases loaded_config.repos@.len() - index,
    {
        let ghost before = paths@;
        paths.push(loaded_config.repos[index].1.resolved_path(home));
        assert(crate::text::string_views(paths@) =~= crate::text::string_views(before).push(paths@.last()@));
        assert(repository_paths(*loaded_config, *home).take(index + 1) =~= repository_paths(
            *loaded_config,
            *home,
        ).take(index as int).push(loaded_config.repos@[index as int].1.resolved_path_view(*home)));
        index = index + 1;
    }
    assert(repository_paths(*loaded_config, *home).take(index as int) =~= repository_paths(*loaded_config, *home));
    match longest_prefix_match(&paths, current_directory) {
        Some(best) => {
            let repo = &loaded_config.repos[best];
            Some(
                TerminalIdentity {
                    resolved_title: resolve_tab_title(&repo.1.title, repo.0.as_str()),
                    tab_color_action: resolve_tab_color(&repo.1.color),
                },
            )
        },
        None => None,
    }
}

/// What `rep color` writes. A direct alias paints that repository (or
/// fails with `RepoNotFound`); otherwise the repository whose path holds
/// the working directory is painted. The title is echoed for the prompt
/// hook; when nothing matches, a direct call resets the tab color and the
/// prompt hook leaves the terminal alone.
pub fn run_color(
    color_params: &ColorCommandParams<'_>,
    loaded_config: &ReportalConfig,
    current_directory: &str,
    home: &Option<String>,
) -> (output: Result<ColorCommandOutput, ReportalError>)
    requires
        loaded_config.wf(),
    ensures
        color_params.repo_alias@.len() > 0 ==> match repo_lookup(loaded_config.repos@, color_params.repo_alias@) {
            Some(index) => output matches Ok(painted) && paints(
                painted,
                title_label(loaded_config.repos@[index].1.title, color_params.repo_alias@),
                loaded_config.repos@[index].1.color,
                color_params.mode,
            ),
            None => output matches Err(error) && is_repo_not_found(error, color_params.repo_alias@),
        },
        color_params.repo_alias@.len() == 0 ==> match longest_match(
            repository_paths(*loaded_config, *home),
            current_directory@,
        ) {
            Some(index) => output matches Ok(painted) && paints(
                painted,
                title_label(loaded_config.repos@[index].1.title, loaded_config.repos@[index].0@),
                loaded_config.repos@[index].1.color,
                color_params.mode,
            ),
            None => output matches Ok(unmatched) && no_match_output(unmatched, color_params.mode),
        },
{
    let resolved = if color_params.repo_alias.is_empty() {
        resolve_from_working_directory(loaded_config, current_directory, home)
    } else {
        match loaded_config.get_repo(color_params.repo_alias) {
            Ok(found_repo) => Some(
                TerminalIdentity {
                    resolved_title: resolve_tab_title(&found_repo.title, color_params.repo_alias),
                    tab_color_action: resolve_tab_color(&found_repo.color),
                },
            ),
            Err(error) => {
                return Err(error);
            },
        }
    };
    match resolved {
        Some(identity) => Ok(
            ColorCommandOutput::Paint {
                identity,
                echo_title: color_params.mode == ColorCommandMode::PromptHook,
            },
        ),
        None => match color_params.mode {
            ColorCommandMode::Explicit => Ok(ColorCommandOutput::ResetTabColor),
            ColorCommandMode::PromptHook => Ok(ColorCommandOutput::LeaveUnchanged),
        },
    }
}

} // verus!
