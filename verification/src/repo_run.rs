//! Choosing the command to run in a repository: the global commands,
//! each replaced by the repository's own command of the same name, then
//! the repository's commands that no global one names.

use vstd::prelude::*;
use crate::config::{CommandEntry, PathDisplayFormat, ReportalConfig, TagFilter};
use crate::error::ReportalError;
use crate::prompt_identity::title_label;
use crate::repo_selection::{repo_choice, select_repo, RepoChoice, SelectedRepoParams};
use crate::terminal_identity_emit::{
    color_action_for, emit_repo_terminal_identity, TerminalIdentity, TerminalIdentityEmitParams,
};
use crate::key_order::{find_key, key_position, keys_sorted};
use crate::text::{extend_str, string_of};

use crate::path_display::{format_path, formatted_path};

verus! {

/// What the run command starts from.
pub struct RunCommandParameters<'a> {
    /// Which repositories the menu shows.
    pub tag_filter: TagFilter,
    /// A repository key or alias to use directly; empty for the menu.
    pub direct_alias: &'a str,
    /// A command name to run directly; empty for the command menu.
    pub direct_command: &'a str,
}

/// A command chosen to run: its name and the shell text.
pub struct ResolvedCommand {
    pub command_name: String,
    pub shell_command: String,
}

/// The global commands, each replaced by the repository's command of the
/// same name where it has one.
pub open spec fn global_part(
    global: Seq<(String, CommandEntry)>,
    repo: Seq<(String, CommandEntry)>,
) -> Seq<(Seq<char>, CommandEntry)> {
    global.map_values(
        |g: (String, CommandEntry)|
            (
                g.0@,
                match key_position(repo, g.0@) {
                    Some(k) => repo[k].1,
                    None => g.1,
                },
            ),
    )
}

/// The repository's commands that no global command names, in order.
pub open spec fn repo_only_part(
    global: Seq<(String, CommandEntry)>,
    repo: Seq<(String, CommandEntry)>,
) -> Seq<(Seq<char>, CommandEntry)>
    decreases repo.len(),
{
    if repo.len() == 0 {
        seq![]
    } else {
        let rest = repo_only_part(global, repo.drop_last());
        if key_position(global, repo.last().0@) is None {
            rest.push((repo.last().0@, repo.last().1))
        } else {
            rest
        }
    }
}

/// The command menu: the global part followed by the repository-only part.
pub open spec fn merged_commands(
    global: Seq<(String, CommandEntry)>,
    repo: Seq<(String, CommandEntry)>,
) -> Seq<(Seq<char>, CommandEntry)> {
    global_part(global, repo) + repo_only_part(global, repo)
}

/// A command's menu label: its name, a dash, and its description, or its
/// shell text when it has no description.
pub open spec fn command_label(name: Seq<char>, entry: CommandEntry) -> Seq<char> {
    name + " — "@ + if entry.description@.len() == 0 {
        entry.command@
    } else {
        entry.description@
    }
}

/// With no global commands, every repository command is in the
/// repository-only part.
proof fn lemma_repo_only_without_globals(global: Seq<(String, CommandEntry)>, repo: Seq<(String, CommandEntry)>)
    requires
        global.len() == 0,
    ensures
        repo_only_part(global, repo).len() == repo.len(),
    decreases repo.len(),
{
    if repo.len() > 0 {
        lemma_repo_only_without_globals(global, repo.drop_last());
    }
}

/// The view of a merged list built from borrowed entries.
pub open spec fn merged_view(merged: Seq<(&str, &CommandEntry)>) -> Seq<(Seq<char>, CommandEntry)> {
    merged.map_values(|m: (&str, &CommandEntry)| (m.0@, *m.1))
}

/// The global commands with repository overrides applied, then the
/// repository-only commands.
pub fn merge_commands<'a>(global: &'a Vec<(String, CommandEntry)>, repo: &'a Vec<(String, CommandEntry)>) -> (merged:
    Vec<(&'a str, &'a CommandEntry)>)
    requires
        keys_sorted(global@),
        keys_sorted(repo@),
    ensures
        merged_view(merged@) == merged_commands(global@, repo@),
{
    let mut merged: Vec<(&'a str, &'a CommandEntry)> = Vec::new();
    let mut index: usize = 0;
    while index < global.len()
        invariant
            index <= global@.len(),
            keys_sorted(repo@),
            merged_view(merged@) == global_part(global@.take(index as int), repo@),
        decreases global@.len() - index,
    {
        let name = global[index].0.as_str();
        let chosen: &CommandEntry = match find_key(repo, name) {
            Some(k) => &repo[k].1,
            None => &global[index].1,
        };
        let ghost before = merged@;
        merged.push((name, chosen));
        assert(merged_view(merged@) =~= merged_view(before).push((name@, *chosen)));
        assert(global@.take(index + 1) =~= global@.take(index as int).push(global@[index as int]));
        assert(global_part(global@.take(index + 1), repo@) =~= global_part(global@.take(index as int), repo@).push(
            (name@, *chosen),
        ));
        index = index + 1;
    }
    assert(global@.take(global@.len() as int) =~= global@);
    let ghost global_done = merged@;
    let mut position: usize = 0;
    while position < repo.len()
        invariant
            position <= repo@.len(),
            keys_sorted(global@),
            merged_view(global_done) == global_part(global@, repo@),
            merged@.len() >= global_done.len(),
            merged@.take(global_done.len() as int) == global_done,
            merged_view(merged@.skip(global_done.len() as int)) == repo_only_part(
                global@,
                repo@.take(position as int),
            ),
        decreases repo@.len() - position,
    {
        let name = repo[position].0.as_str();
        let ghost before = merged@;
        assert(repo@.take(position + 1).drop_last() =~= repo@.take(position as int));
        if find_key(global, name).is_none() {
            merged.push((name, &repo[position].1));
            assert(merged@.take(global_done.len() as int) =~= before.take(global_done.len() as int));
            assert(merged@.skip(global_done.len() as int) =~= before.skip(global_done.len() as int).push(
                merged@.last(),
            ));
            assert(merged_view(merged@.skip(global_done.len() as int)) =~= merged_view(
                before.skip(global_done.len() as int),
            ).push((name@, repo@[position as int].1)));
        }
        position = position + 1;
    }
    assert(repo@.take(repo@.len() as int) =~= repo@);
    assert(merged@ =~= merged@.take(global_done.len() as int) + merged@.skip(global_done.len() as int));
    assert(merged_view(merged@) =~= merged_view(global_done) + merged_view(merged@.skip(global_done.len() as int)));
    merged
}

/// The menu label of a command.
pub fn command_menu_label(name: &str, entry: &CommandEntry) -> (label: String)
    ensures
        label@ == command_label(name@, *entry),
{
    let mut text: Vec<char> = Vec::new();
    extend_str(&mut text, name);
    extend_str(&mut text, " — ");
    if entry.description.as_str().is_empty() {
        extend_str(&mut text, entry.command.as_str());
    } else {
        extend_str(&mut text, entry.description.as_str());
    }
    string_of(text.as_slice())
}

/// The labels of the command menu, in menu order.
pub fn command_menu_labels(global: &Vec<(String, CommandEntry)>, repo: &Vec<(String, CommandEntry)>) -> (labels: Vec<
    String,
>)
    requires
        keys_sorted(global@),
        keys_sorted(repo@),
    ensures
        labels@.len() == merged_commands(global@, repo@).len(),
        forall|i: int|
            0 <= i < labels@.len() ==> (#[trigger] labels@[i])@ == command_label(
                merged_commands(global@, repo@)[i].0,
                merged_commands(global@, repo@)[i].1,
            ),
{
    let merged = merge_commands(global, repo);
    let mut labels: Vec<String> = Vec::new();
    let mut index: usize = 0;
    while index < merged.len()
        invariant
            index <= merged@.len(),
            merged_view(merged@) == merged_commands(global@, repo@),
            labels@.len() == index,
            forall|i: int|
                0 <= i < index ==> (#[trigger] labels@[i])@ == command_label(
                    merged_commands(global@, repo@)[i].0,
                    merged_commands(global@, repo@)[i].1,
                ),
        decreases merged@.len() - index,
    {
        assert(merged_view(merged@)[index as int] == (merged@[index as int].0@, *merged@[index as int].1));
        labels.push(command_menu_label(merged[index].0, merged[index].1));
        index = index + 1;
    }
    labels
}

/// The command to run. With neither global nor repository commands the
/// answer is `NoCommandsAvailable`. A direct command name takes the
/// repository's command of that name, else the global one, else
/// `CommandNotFound`; otherwise the menu row at `chosen_index` is taken,
/// and a dismissed menu or an index past its end cancels.
pub fn resolve_command(
    global_commands: &Vec<(String, CommandEntry)>,
    repo_commands: &Vec<(String, CommandEntry)>,
    direct_command: &str,
    chosen_index: Option<usize>,
) -> (resolved: Result<ResolvedCommand, ReportalError>)
    requires
        keys_sorted(global_commands@),
        keys_sorted(repo_commands@),
    ensures
        ({
            let merged = merged_commands(global_commands@, repo_commands@);
            if global_commands@.len() == 0 && repo_commands@.len() == 0 {
                resolved matches Err(ReportalError::NoCommandsAvailable)
            } else if direct_command@.len() == 0 {
                match chosen_index {
                    Some(row) if row < merged.len() => resolved matches Ok(command) && command.command_name@
                        == merged[row as int].0 && command.shell_command@ == merged[row as int].1.command@,
                    _ => resolved matches Err(ReportalError::SelectionCancelled),
                }
            } else {
                match key_position(repo_commands@, direct_command@) {
                    Some(k) => resolved matches Ok(command) && command.command_name@ == direct_command@
                        && command.shell_command@ == repo_commands@[k].1.command@,
                    None => match key_position(global_commands@, direct_command@) {
                        Some(g) => resolved matches Ok(command) && command.command_name@ == direct_command@
                            && command.shell_command@ == global_commands@[g].1.command@,
                        None => resolved matches Err(ReportalError::CommandNotFound { command_name })
                            && command_name@ == direct_command@,
                    },
                }
            }
        }),
{
    let merged = merge_commands(global_commands, repo_commands);
    proof {
        if global_commands@.len() == 0 {
            lemma_repo_only_without_globals(global_commands@, repo_commands@);
        }
    }
    if merged.len() == 0 {
        assert(merged_view(merged@).len() == 0);
        return Err(ReportalError::NoCommandsAvailable);
    }
    assert(merged_view(merged@).len() > 0);
    if direct_command.is_empty() {
        return match chosen_index {
            Some(row) if row < merged.len() => {
                assert(merged_view(merged@)[row as int] == (merged@[row as int].0@, *merged@[row as int].1));
                Ok(
                    ResolvedCommand {
                        command_name: merged[row].0.to_owned(),
                        shell_command: merged[row].1.command.clone(),
                    },
                )
            },
            _ => Err(ReportalError::SelectionCancelled),
        };
    }
    match find_key(repo_commands, direct_command) {
        Some(k) => Ok(
            ResolvedCommand {
                command_name: direct_command.to_owned(),
                shell_command: repo_commands[k].1.command.clone(),
            },
        ),
        None => match find_key(global_commands, direct_command) {
            Some(g) => Ok(
                ResolvedCommand {
                    command_name: direct_command.to_owned(),
                    shell_command: global_commands[g].1.command.clone(),
                },
            ),
            None => Err(ReportalError::CommandNotFound { command_name: direct_command.to_owned() }),
        },
    }
}

/// A run: the command chosen, where to run it, and the terminal identity
/// to apply first.
pub struct RunPlan {
    pub command: ResolvedCommand,
    pub repo_path: String,
    /// The repository path as the message shows it, in the registry's
    /// display format.
    pub shown_path: String,
    pub identity: TerminalIdentity,
}

/// What `rep run` runs: the repository chosen (see [`select_repo`]), then
/// the command chosen among the global commands and that repository's
/// own (see [`resolve_command`]), run through the shell from the
/// repository's expanded path after applying its terminal identity.
pub fn run_run(
    run_params: &RunCommandParameters<'_>,
    loaded_config: &ReportalConfig,
    home: &Option<String>,
    chosen_repo_index: Option<usize>,
    chosen_command_index: Option<usize>,
) -> (run: Result<RunPlan, ReportalError>)
    requires
        loaded_config.wf(),
    ensures
        match repo_choice(loaded_config.repos@, run_params.direct_alias@, run_params.tag_filter, chosen_repo_index) {
            RepoChoice::Found(index, alias) => {
                let repo = loaded_config.repos@[index].1;
                let global = loaded_config.commands@;
                let merged = merged_commands(global, repo.commands@);
                if global.len() == 0 && repo.commands@.len() == 0 {
                    run matches Err(ReportalError::NoCommandsAvailable)
                } else if run_params.direct_command@.len() == 0 {
                    match chosen_command_index {
                        Some(row) if row < merged.len() => run matches Ok(plan) && plan.command.command_name@
                            == merged[row as int].0 && plan.command.shell_command@ == merged[row as int].1.command@
                            && runs_in(plan, repo, alias, *home, loaded_config.path_display_format),
                        _ => run matches Err(ReportalError::SelectionCancelled),
                    }
                } else {
                    match key_position(repo.commands@, run_params.direct_command@) {
                        Some(k) => run matches Ok(plan) && plan.command.command_name@ == run_params.direct_command@
                            && plan.command.shell_command@ == repo.commands@[k].1.command@ && runs_in(
                            plan,
                            repo,
                            alias,
                            *home,
                            loaded_config.path_display_format,
                        ),
                        None => match key_position(global, run_params.direct_command@) {
                            Some(g) => run matches Ok(plan) && plan.command.command_name@
                                == run_params.direct_command@ && plan.command.shell_command@ == global[g].1.command@
                                && runs_in(plan, repo, alias, *home, loaded_config.path_display_format),
                            None => run matches Err(ReportalError::CommandNotFound { command_name })
                                && command_name@ == run_params.direct_command@,
                        },
                    }
                }
            },
            RepoChoice::NotFound => run matches Err(ReportalError::RepoNotFound { alias }) && alias@
                == run_params.direct_alias@,
            RepoChoice::NoneMatch => run matches Err(ReportalError::NoReposMatchFilter),
            RepoChoice::Cancelled => run matches Err(ReportalError::SelectionCancelled),
        },
{
    let selection_params = SelectedRepoParams {
        loaded_config,
        direct_alias: run_params.direct_alias,
        tag_filter: &run_params.tag_filter,
        prompt_label: "Run command in",
    };
    let selected = match select_repo(&selection_params, chosen_repo_index) {
        Ok(selected) => selected,
        Err(error) => {
            return Err(error);
        },
    };
    proof {
        reveal_strlit("");
        if let RepoChoice::Found(index, alias) = repo_choice(
            loaded_config.repos@,
            run_params.direct_alias@,
            run_params.tag_filter,
            chosen_repo_index,
        ) {
            if 0 <= index < loaded_config.repos@.len() {
                assert(keys_sorted(loaded_config.repos@[index].1.commands@));
            }
        }
    }
    let identity = emit_repo_terminal_identity(
        TerminalIdentityEmitParams {
            selected_alias: selected.repo_alias(),
            selected_repo: selected.repo_config(),
            title_override: "",
        },
    );
    let command = match resolve_command(
        &loaded_config.commands,
        &selected.repo_config().commands,
        run_params.direct_command,
        chosen_command_index,
    ) {
        Ok(command) => command,
        Err(error) => {
            return Err(error);
        },
    };
    let repo_path = selected.repo_config().resolved_path(home);
    let shown_path = format_path(loaded_config.path_display_format, repo_path.as_str());
    Ok(RunPlan { command, repo_path, shown_path, identity })
}

/// The plan runs in the repository's expanded path under its identity.
pub open spec fn runs_in(
    plan: RunPlan,
    repo: crate::config::RepoEntry,
    alias: Seq<char>,
    home: Option<String>,
    format: PathDisplayFormat,
) -> bool {
    &&& plan.repo_path@ == repo.resolved_path_view(home)
    &&& plan.shown_path@ == formatted_path(format, plan.repo_path@)
    &&& plan.identity.resolved_title@ == title_label(repo.title, alias)
    &&& color_action_for(plan.identity.tab_color_action, repo.color)
}

} // verus!
