//! The installation diagnostic report: whether the configuration loads,
//! whether the shell integration is active, whether every registered path
//! exists, and whether any name exported as a shell function shadows an
//! executable on `PATH`.
//!
//! What the checks observe (files, environment, `PATH`) is gathered by the
//! caller: [`repo_paths_to_check`] and [`shadow_probes_of`] say what to
//! look at, and the report is built from the answers.

use vstd::prelude::*;
use crate::config::{CommandEntry, RepoEntry, ReportalConfig, ShellAliasExport, WorkspaceEntry};
use crate::text::{decimal, extend_str, push_decimal, string_of, string_views};

verus! {

/// One name that `rep init` would export as a shell function, with the
/// kind of entry it comes from.
pub struct ShadowProbe {
    pub candidate_emitted_name: String,
    pub emitted_kind_label: String,
}

/// The names of a sequence, each with the same label.
pub open spec fn labelled(names: Seq<Seq<char>>, label: Seq<char>) -> Seq<(Seq<char>, Seq<char>)> {
    names.map_values(|name: Seq<char>| (name, label))
}

/// Probes for the opted-in repositories: the key, then each declared
/// alias.
pub open spec fn repository_probes(repos: Seq<(String, RepoEntry)>) -> Seq<(Seq<char>, Seq<char>)>
    decreases repos.len(),
{
    if repos.len() == 0 {
        seq![]
    } else {
        let last = repos.last();
        repository_probes(repos.drop_last()) + if last.1.shell_alias == ShellAliasExport::Enabled {
            seq![(last.0@, "repository canonical"@)] + labelled(string_views(last.1.aliases@), "repository alias"@)
        } else {
            seq![]
        }
    }
}

/// Probes for the opted-in workspaces: the name, then each declared alias.
pub open spec fn workspace_probes(workspaces: Seq<(String, WorkspaceEntry)>) -> Seq<(Seq<char>, Seq<char>)>
    decreases workspaces.len(),
{
    if workspaces.len() == 0 {
        seq![]
    } else {
        let last = workspaces.last();
        workspace_probes(workspaces.drop_last()) + if last.1.shell_alias == ShellAliasExport::Enabled {
            seq![(last.0@, "workspace canonical"@)] + labelled(string_views(last.1.aliases@), "workspace alias"@)
        } else {
            seq![]
        }
    }
}

/// Probes for the opted-in global commands: the command name.
pub open spec fn command_probes(commands: Seq<(String, CommandEntry)>) -> Seq<(Seq<char>, Seq<char>)>
    decreases commands.len(),
{
    if commands.len() == 0 {
        seq![]
    } else {
        let last = commands.last();
        command_probes(commands.drop_last()) + if last.1.shell_alias == ShellAliasExport::Enabled {
            seq![(last.0@, "command"@)]
        } else {
            seq![]
        }
    }
}

/// Every probe: repositories, then workspaces, then commands.
pub open spec fn shadow_probes(config: ReportalConfig) -> Seq<(Seq<char>, Seq<char>)> {
    repository_probes(config.repos@) + workspace_probes(config.workspaces@) + command_probes(config.commands@)
}

/// Some repository, workspace, or command opts into shell-alias export.
pub open spec fn any_entry_opted_in(config: ReportalConfig) -> bool {
    ||| exists|i: int|
        0 <= i < config.repos@.len() && (#[trigger] config.repos@[i]).1.shell_alias == ShellAliasExport::Enabled
    ||| exists|i: int|
        0 <= i < config.workspaces@.len() && (#[trigger] config.workspaces@[i]).1.shell_alias
            == ShellAliasExport::Enabled
    ||| exists|i: int|
        0 <= i < config.commands@.len() && (#[trigger] config.commands@[i]).1.shell_alias
            == ShellAliasExport::Enabled
}

/// The view of a list of probes.
pub open spec fn probe_views(probes: Seq<ShadowProbe>) -> Seq<(Seq<char>, Seq<char>)> {
    probes.map_values(|probe: ShadowProbe| (probe.candidate_emitted_name@, probe.emitted_kind_label@))
}

proof fn lemma_repository_probes_empty(repos: Seq<(String, RepoEntry)>)
    ensures
        repository_probes(repos).len() == 0 <==> forall|i: int|
            0 <= i < repos.len() ==> (#[trigger] repos[i]).1.shell_alias != ShellAliasExport::Enabled,
    decreases repos.len(),
{
    if repos.len() > 0 {
        let rest = repos.drop_last();
        lemma_repository_probes_empty(rest);
        let last_index = repos.len() - 1;
        assert(repos[last_index] == repos.last());
        if repository_probes(repos).len() == 0 {
            assert forall|i: int| 0 <= i < repos.len() implies (#[trigger] repos[i]).1.shell_alias
                != ShellAliasExport::Enabled by {
                if i < rest.len() {
                    assert(rest[i] == repos[i]);
                }
            }
        } else if repository_probes(rest).len() > 0 {
            let i = choose|i: int| 0 <= i < rest.len() && (#[trigger] rest[i]).1.shell_alias == ShellAliasExport::Enabled;
            assert(rest[i] == repos[i]);
        }
    }
}

proof fn lemma_workspace_probes_empty(workspaces: Seq<(String, WorkspaceEntry)>)
    ensures
        workspace_probes(workspaces).len() == 0 <==> forall|i: int|
            0 <= i < workspaces.len() ==> (#[trigger] workspaces[i]).1.shell_alias != ShellAliasExport::Enabled,
    decreases workspaces.len(),
{
    if workspaces.len() > 0 {
        let rest = workspaces.drop_last();
        lemma_workspace_probes_empty(rest);
        let last_index = workspaces.len() - 1;
        assert(workspaces[last_index] == workspaces.last());
        if workspace_probes(workspaces).len() == 0 {
            assert forall|i: int| 0 <= i < workspaces.len() implies (#[trigger] workspaces[i]).1.shell_alias
                != ShellAliasExport::Enabled by {
                if i < rest.len() {
                    assert(rest[i] == workspaces[i]);
                }
            }
        } else if workspace_probes(rest).len() > 0 {
            let i = choose|i: int| 0 <= i < rest.len() && (#[trigger] rest[i]).1.shell_alias == ShellAliasExport::Enabled;
            assert(rest[i] == workspaces[i]);
        }
    }
}

proof fn lemma_command_probes_empty(commands: Seq<(String, CommandEntry)>)
    ensures
        command_probes(commands).len() == 0 <==> forall|i: int|
            0 <= i < commands.len() ==> (#[trigger] commands[i]).1.shell_alias != ShellAliasExport::Enabled,
    decreases commands.len(),
{
    if commands.len() > 0 {
        let rest = commands.drop_last();
        lemma_command_probes_empty(rest);
        let last_index = commands.len() - 1;
        assert(commands[last_index] == commands.last());
        if command_probes(commands).len() == 0 {
            assert forall|i: int| 0 <= i < commands.len() implies (#[trigger] commands[i]).1.shell_alias
                != ShellAliasExport::Enabled by {
                if i < rest.len() {
                    assert(rest[i] == commands[i]);
                }
            }
        } else if command_probes(rest).len() > 0 {
            let i = choose|i: int| 0 <= i < rest.len() && (#[trigger] rest[i]).1.shell_alias == ShellAliasExport::Enabled;
            assert(rest[i] == commands[i]);
        }
    }
}

/// There is something to probe exactly when some entry opts in.
pub proof fn lemma_probes_exist_iff_opted_in(config: ReportalConfig)
    ensures
        shadow_probes(config).len() > 0 <==> any_entry_opted_in(config),
{
    lemma_repository_probes_empty(config.repos@);
    lemma_workspace_probes_empty(config.workspaces@);
    lemma_command_probes_empty(config.commands@);
}

fn push_labelled(probes: &mut Vec<ShadowProbe>, names: &Vec<String>, label: &str)
    ensures
        probe_views(final(probes)@) == probe_views(old(probes)@) + labelled(string_views(names@), label@),
{
    let ghost start = probes@;
    let mut index: usize = 0;
    while index < names.len()
        invariant
            index <= names@.len(),
            probe_views(probes@) == probe_views(start) + labelled(string_views(names@.take(index as int)), label@),
        decreases names@.len() - index,
    {
        let ghost before = probes@;
        probes.push(ShadowProbe { candidate_emitted_name: names[index].clone(), emitted_kind_label: label.to_owned() });
        assert(probe_views(probes@) =~= probe_views(before).push((names@[index as int]@, label@)));
        assert(string_views(names@.take(index + 1)) =~= string_views(names@.take(index as int)).push(
            names@[index as int]@,
        ));
        assert(labelled(string_views(names@.take(index + 1)), label@) =~= labelled(
            string_views(names@.take(index as int)),
            label@,
        ).push((names@[index as int]@, label@)));
        index = index + 1;
    }
    assert(names@.take(names@.len() as int) =~= names@);
}

/// The names to probe against `PATH`, with their kind labels, in report
/// order.
pub fn shadow_probes_of(loaded_configuration: &ReportalConfig) -> (probes: Vec<ShadowProbe>)
    ensures
        probe_views(probes@) == shadow_probes(*loaded_configuration),
{
    let repos = &loaded_configuration.repos;
    let workspaces = &loaded_configuration.workspaces;
    let commands = &loaded_configuration.commands;
    let mut probes: Vec<ShadowProbe> = Vec::new();
    let mut index: usize = 0;
    while index < repos.len()
        invariant
            index <= repos@.len(),
            probe_views(probes@) == repository_probes(repos@.take(index as int)),
        decreases repos@.len() - index,
    {
        assert(repos@.take(index + 1).drop_last() =~= repos@.take(index as int));
        assert(repos@.take(index + 1).last() == repos@[index as int]);
        if repos[index].1.shell_alias == ShellAliasExport::Enabled {
            let ghost before = probes@;
            probes.push(
                ShadowProbe {
                    candidate_emitted_name: repos[index].0.clone(),
                    emitted_kind_label: "repository canonical".to_owned(),
                },
            );
            assert(probe_views(probes@) =~= probe_views(before) + seq![(repos@[index as int].0@, "repository canonical"@)]);
            push_labelled(&mut probes, &repos[index].1.aliases, "repository alias");
        }
        index = index + 1;
    }
    assert(repos@.take(repos@.len() as int) =~= repos@);
    let ghost after_repos = probes@;
    index = 0;
    while index < workspaces.len()
        invariant
            index <= workspaces@.len(),
            probe_views(after_repos) == repository_probes(repos@),
            probe_views(probes@) == probe_views(after_repos) + workspace_probes(workspaces@.take(index as int)),
        decreases workspaces@.len() - index,
    {
        assert(workspaces@.take(index + 1).drop_last() =~= workspaces@.take(index as int));
        assert(workspaces@.take(index + 1).last() == workspaces@[index as int]);
        if workspaces[index].1.shell_alias == ShellAliasExport::Enabled {
            let ghost before = probes@;
            probes.push(
                ShadowProbe {
                    candidate_emitted_name: workspaces[index].0.clone(),
                    emitted_kind_label: "workspace canonical".to_owned(),
                },
            );
            assert(probe_views(probes@) =~= probe_views(before) + seq![(workspaces@[index as int].0@, "workspace canonical"@)]);
            push_labelled(&mut probes, &workspaces[index].1.aliases, "workspace alias");
        }
        index = index + 1;
    }
    assert(workspaces@.take(workspaces@.len() as int) =~= workspaces@);
    let ghost after_workspaces = probes@;
    index = 0;
    while index < commands.len()
        invariant
            index <= commands@.len(),
            probe_views(after_workspaces) == repository_probes(repos@) + workspace_probes(workspaces@),
            probe_views(probes@) == probe_views(after_workspaces) + command_probes(commands@.take(index as int)),
        decreases commands@.len() - index,
    {
        assert(commands@.take(index + 1).drop_last() =~= commands@.take(index as int));
        assert(commands@.take(index + 1).last() == commands@[index as int]);
        if commands[index].1.shell_alias == ShellAliasExport::Enabled {
            let ghost before = probes@;
            probes.push(
                ShadowProbe { candidate_emitted_name: commands[index].0.clone(), emitted_kind_label: "command".to_owned() },
            );
            assert(probe_views(probes@) =~= probe_views(before) + seq![(commands@[index as int].0@, "command"@)]);
        }
        index = index + 1;
    }
    assert(commands@.take(commands@.len() as int) =~= commands@);
    probes
}

/// The expanded path of every registered repository, in key order.
pub fn repo_paths_to_check(loaded_config: &ReportalConfig, home: &Option<String>) -> (paths: Vec<String>)
    ensures
        paths@.len() == loaded_config.repos@.len(),
        forall|i: int|
            0 <= i < paths@.len() ==> (#[trigger] paths@[i])@ == loaded_config.repos@[i].1.resolved_path_view(*home),
{
    let mut paths: Vec<String> = Vec::new();
    let mut index: usize = 0;
    while index < loaded_config.repos.len()
        invariant
            index <= loaded_config.repos@.len(),
            paths@.len() == index,
            forall|i: int|
                0 <= i < index ==> (#[trigger] paths@[i])@ == loaded_config.repos@[i].1.resolved_path_view(*home),
        decreases loaded_config.repos@.len() - index,
    {
        paths.push(loaded_config.repos[index].1.resolved_path(home));
        index = index + 1;
    }
    paths
}

/// The text of a report line.
pub enum DiagnosticMessage {
    /// A sentence.
    Text(String),
    /// A repository and its expanded path; on a failed line the path does
    /// not exist.
    RepoPath { alias: String, path: String },
    /// An exported name and its kind; on a failed line, the executable it
    /// shadows.
    ShadowProbe { kind_label: String, name: String, shadowed_executable: Option<String> },
}

/// A line of the report.
pub enum DiagnosticLine {
    /// A section heading.
    Section(String),
    /// A check that passed.
    Pass(DiagnosticMessage),
    /// A check that failed.
    Fail(DiagnosticMessage),
    /// What to do about the failure above.
    Hint(String),
}

/// The text of a report line, as sequences.
pub enum MessageView {
    Text(Seq<char>),
    RepoPath(Seq<char>, Seq<char>),
    ShadowProbe(Seq<char>, Seq<char>, Option<Seq<char>>),
}

/// A report line, as sequences.
pub enum LineView {
    Section(Seq<char>),
    Pass(MessageView),
    Fail(MessageView),
    Hint(Seq<char>),
}

pub open spec fn message_view(message: DiagnosticMessage) -> MessageView {
    match message {
        DiagnosticMessage::Text(text) => MessageView::Text(text@),
        DiagnosticMessage::RepoPath { alias, path } => MessageView::RepoPath(alias@, path@),
        DiagnosticMessage::ShadowProbe { kind_label, name, shadowed_executable } => MessageView::ShadowProbe(
            kind_label@,
            name@,
            match shadowed_executable {
                Some(existing) => Some(existing@),
                None => None,
            },
        ),
    }
}

pub open spec fn line_view(line: DiagnosticLine) -> LineView {
    match line {
        DiagnosticLine::Section(title) => LineView::Section(title@),
        DiagnosticLine::Pass(message) => LineView::Pass(message_view(message)),
        DiagnosticLine::Fail(message) => LineView::Fail(message_view(message)),
        DiagnosticLine::Hint(text) => LineView::Hint(text@),
    }
}

pub open spec fn lines_view(lines: Seq<DiagnosticLine>) -> Seq<LineView> {
    lines.map_values(|line: DiagnosticLine| line_view(line))
}

/// Lines of the configuration check.
pub open spec fn config_lines(config_path: Option<String>, load_result: Result<ReportalConfig, String>) -> Seq<
    LineView,
> {
    seq![LineView::Section("Config"@)] + match config_path {
        None => seq![LineView::Fail(MessageView::Text("Could not determine config path"@))],
        Some(path) => match load_result {
            Ok(config) => seq![
                LineView::Pass(
                    MessageView::Text(
                        "Config loaded from "@ + path@ + " ("@ + decimal(config.repos@.len()) + " repos registered)"@,
                    ),
                ),
            ],
            Err(reason) => seq![
                LineView::Fail(MessageView::Text("Config failed to load: "@ + reason@)),
                LineView::Hint("Check ~/.reportal/config.toml for syntax errors"@),
            ],
        },
    }
}

/// Lines of the shell-integration check.
pub open spec fn integration_lines(integration_loaded: bool) -> Seq<LineView> {
    seq![LineView::Section("Shell Integration"@)] + if integration_loaded {
        seq![LineView::Pass(MessageView::Text("Shell integration loaded in current session"@))]
    } else {
        seq![
            LineView::Fail(MessageView::Text("Shell integration NOT loaded in current session"@)),
            LineView::Hint("Add eval \"$(rep init zsh)\" (or bash/powershell) to your shell rc file"@),
        ]
    }
}

/// The line of one repository path.
pub open spec fn repo_path_line(alias: Seq<char>, path: Seq<char>, exists_on_disk: bool) -> LineView {
    if exists_on_disk {
        LineView::Pass(MessageView::RepoPath(alias, path))
    } else {
        LineView::Fail(MessageView::RepoPath(alias, path))
    }
}

/// Lines of the repository path check.
pub open spec fn repo_path_lines(config: ReportalConfig, home: Option<String>, path_exists: Seq<bool>) -> Seq<
    LineView,
> {
    seq![LineView::Section("Repo Paths"@)] + if config.repos@.len() == 0 {
        seq![
            LineView::Fail(MessageView::Text("No repos registered"@)),
            LineView::Hint("Run 'rep add <path>' to register a repo"@),
        ]
    } else {
        Seq::new(
            config.repos@.len(),
            |i: int| repo_path_line(config.repos@[i].0@, config.repos@[i].1.resolved_path_view(home), path_exists[i]),
        )
    }
}

/// The lines of one probe: a pass, or a failure naming the shadowed
/// executable and a hint.
pub open spec fn probe_lines(probe: (Seq<char>, Seq<char>), shadowed: Option<String>) -> Seq<LineView> {
    match shadowed {
        None => seq![LineView::Pass(MessageView::ShadowProbe(probe.1, probe.0, None))],
        Some(existing) => seq![
            LineView::Fail(MessageView::ShadowProbe(probe.1, probe.0, Some(existing@))),
            LineView::Hint(
                "Pick a different alias, or remove `shell_alias = true` to keep this entry as a `rj <alias>` target only"@,
            ),
        ],
    }
}

/// The lines of the first `count` probes.
pub open spec fn all_probe_lines(probes: Seq<(Seq<char>, Seq<char>)>, shadowing: Seq<Option<String>>, count: int) -> Seq<
    LineView,
>
    decreases count,
{
    if count <= 0 {
        seq![]
    } else {
        all_probe_lines(probes, shadowing, count - 1) + probe_lines(probes[count - 1], shadowing[count - 1])
    }
}

/// Lines of the shell-alias shadow check.
pub open spec fn shadow_lines(config: ReportalConfig, shadowing: Seq<Option<String>>) -> Seq<LineView> {
    let probes = shadow_probes(config);
    seq![LineView::Section("Shell Alias Shadows"@)] + all_probe_lines(probes, shadowing, probes.len() as int) + if probes.len()
        == 0 {
        seq![LineView::Pass(MessageView::Text("No entries opted into shell-alias export"@))]
    } else {
        seq![]
    }
}

/// Number of passed checks among the lines.
pub open spec fn count_passed(lines: Seq<LineView>) -> nat
    decreases lines.len(),
{
    if lines.len() == 0 {
        0
    } else {
        count_passed(lines.drop_last()) + if lines.last() is Pass {
            1nat
        } else {
            0nat
        }
    }
}

/// Number of failed checks among the lines.
pub open spec fn count_failed(lines: Seq<LineView>) -> nat
    decreases lines.len(),
{
    if lines.len() == 0 {
        0
    } else {
        count_failed(lines.drop_last()) + if lines.last() is Fail {
            1nat
        } else {
            0nat
        }
    }
}

proof fn lemma_counts_bounded(lines: Seq<LineView>)
    ensures
        count_passed(lines) <= lines.len(),
        count_failed(lines) <= lines.len(),
    decreases lines.len(),
{
    if lines.len() > 0 {
        lemma_counts_bounded(lines.drop_last());
    }
}

/// The report as it is built.
pub struct DiagnosticSummary {
    pub lines: Vec<DiagnosticLine>,
}

impl DiagnosticSummary {
    /// An empty report.
    pub fn new() -> (summary: Self)
        ensures
            summary.lines@.len() == 0,
    {
        DiagnosticSummary { lines: Vec::new() }
    }

    fn push_line(&mut self, line: DiagnosticLine)
        ensures
            lines_view(final(self).lines@) == lines_view(old(self).lines@).push(line_view(line)),
    {
        self.lines.push(line);
        assert(lines_view(self.lines@) =~= lines_view(old(self).lines@).push(line_view(line)));
    }

    fn push_text(&mut self, passed: bool, text: &str)
        ensures
            lines_view(final(self).lines@) == lines_view(old(self).lines@).push(
                if passed {
                    LineView::Pass(MessageView::Text(text@))
                } else {
                    LineView::Fail(MessageView::Text(text@))
                },
            ),
    {
        let message = DiagnosticMessage::Text(text.to_owned());
        if passed {
            self.push_line(DiagnosticLine::Pass(message));
        } else {
            self.push_line(DiagnosticLine::Fail(message));
        }
    }

    /// The configuration check; gives back the registry when its path is
    /// known and it loaded.
    pub fn check_config(&mut self, config_path: Option<String>, load_result: Result<ReportalConfig, String>) -> (loaded:
        Option<ReportalConfig>)
        ensures
            lines_view(final(self).lines@) == lines_view(old(self).lines@) + config_lines(config_path, load_result),
            loaded == match config_path {
                None => None,
                Some(_) => match load_result {
                    Ok(config) => Some(config),
                    Err(_) => None,
                },
            },
    {
        let ghost start = lines_view(self.lines@);
        self.push_line(DiagnosticLine::Section("Config".to_owned()));
        let path = match config_path {
            Some(path) => path,
            None => {
                self.push_text(false, "Could not determine config path");
                assert(lines_view(self.lines@) =~= start + config_lines(config_path, load_result));
                return None;
            },
        };
        match load_result {
            Ok(loaded_config) => {
                let mut text: Vec<char> = Vec::new();
                extend_str(&mut text, "Config loaded from ");
                extend_str(&mut text, path.as_str());
                extend_str(&mut text, " (");
                push_decimal(&mut text, loaded_config.repos.len());
                extend_str(&mut text, " repos registered)");
                let message = string_of(text.as_slice());
                self.push_line(DiagnosticLine::Pass(DiagnosticMessage::Text(message)));
                assert(lines_view(self.lines@) =~= start + config_lines(config_path, load_result));
                Some(loaded_config)
            },
            Err(reason) => {
                let mut text: Vec<char> = Vec::new();
                extend_str(&mut text, "Config failed to load: ");
                extend_str(&mut text, reason.as_str());
                let message = string_of(text.as_slice());
                self.push_line(DiagnosticLine::Fail(DiagnosticMessage::Text(message)));
                self.push_line(DiagnosticLine::Hint("Check ~/.reportal/config.toml for syntax errors".to_owned()));
                assert(lines_view(self.lines@) =~= start + config_lines(config_path, load_result));
                None
            },
        }
    }

    /// The shell-integration check.
    pub fn check_shell_integration(&mut self, integration_loaded: bool)
        ensures
            lines_view(final(self).lines@) == lines_view(old(self).lines@) + integration_lines(integration_loaded),
    {
        let ghost start = lines_view(self.lines@);
        self.push_line(DiagnosticLine::Section("Shell Integration".to_owned()));
        if integration_loaded {
            self.push_text(true, "Shell integration loaded in current session");
        } else {
            self.push_text(false, "Shell integration NOT loaded in current session");
            self.push_line(
                DiagnosticLine::Hint("Add eval \"$(rep init zsh)\" (or bash/powershell) to your shell rc file".to_owned()),
            );
        }
        assert(lines_view(self.lines@) =~= start + integration_lines(integration_loaded));
    }

    /// The repository path check; `path_exists[i]` says whether the
    /// expanded path of the `i`-th repository exists.
    pub fn check_repo_paths(&mut self, loaded_config: &ReportalConfig, home: &Option<String>, path_exists: &Vec<bool>)
        requires
            path_exists@.len() == loaded_config.repos@.len(),
        ensures
            lines_view(final(self).lines@) == lines_view(old(self).lines@) + repo_path_lines(
                *loaded_config,
                *home,
                path_exists@,
            ),
    {
        let ghost start = lines_view(self.lines@);
        self.push_line(DiagnosticLine::Section("Repo Paths".to_owned()));
        if loaded_config.repos.len() == 0 {
            self.push_text(false, "No repos registered");
            self.push_line(DiagnosticLine::Hint("Run 'rep add <path>' to register a repo".to_owned()));
            assert(lines_view(self.lines@) =~= start + repo_path_lines(*loaded_config, *home, path_exists@));
            return;
        }
        let ghost wanted = repo_path_lines(*loaded_config, *home, path_exists@);
        let mut index: usize = 0;
        while index < loaded_config.repos.len()
            invariant
                index <= loaded_config.repos@.len(),
                path_exists@.len() == loaded_config.repos@.len(),
                loaded_config.repos@.len() > 0,
                wanted == repo_path_lines(*loaded_config, *home, path_exists@),
                lines_view(self.lines@) == start + wanted.take(index + 1),
            decreases loaded_config.repos@.len() - index,
        {
            let repo = &loaded_config.repos[index];
            let message = DiagnosticMessage::RepoPath { alias: repo.0.clone(), path: repo.1.resolved_path(home) };
            if path_exists[index] {
                self.push_line(DiagnosticLine::Pass(message));
            } else {
                self.push_line(DiagnosticLine::Fail(message));
            }
            assert(wanted.take(index + 2) =~= wanted.take(index + 1).push(wanted[index + 1]));
            index = index + 1;
        }
        assert(wanted.take(index + 1) =~= wanted);
    }

    /// The shell-alias shadow check; `shadowing[i]` is the executable on
    /// `PATH` that the `i`-th probe's name shadows, if any.
    pub fn check_shell_alias_emission_health(
        &mut self,
        loaded_configuration: &ReportalConfig,
        shadowing: &Vec<Option<String>>,
    )
        requires
            shadowing@.len() == shadow_probes(*loaded_configuration).len(),
        ensures
            lines_view(final(self).lines@) == lines_view(old(self).lines@) + shadow_lines(
                *loaded_configuration,
                shadowing@,
            ),
    {
        let ghost start = lines_view(self.lines@);
        let probes = shadow_probes_of(loaded_configuration);
        let ghost probe_spec = shadow_probes(*loaded_configuration);
        self.push_line(DiagnosticLine::Section("Shell Alias Shadows".to_owned()));
        let mut index: usize = 0;
        while index < probes.len()
            invariant
                index <= probes@.len(),
                probe_views(probes@) == probe_spec,
                probe_spec == shadow_probes(*loaded_configuration),
                shadowing@.len() == probe_spec.len(),
                lines_view(self.lines@) == start + seq![LineView::Section("Shell Alias Shadows"@)] + all_probe_lines(
                    probe_spec,
                    shadowing@,
                    index as int,
                ),
            decreases probes@.len() - index,
        {
            let ghost before = lines_view(self.lines@);
            assert(probe_spec[index as int] == (
                probes@[index as int].candidate_emitted_name@,
                probes@[index as int].emitted_kind_label@,
            ));
            let probe = &probes[index];
            match &shadowing[index] {
                None => {
                    self.push_line(
                        DiagnosticLine::Pass(
                            DiagnosticMessage::ShadowProbe {
                                kind_label: probe.emitted_kind_label.clone(),
                                name: probe.candidate_emitted_name.clone(),
                                shadowed_executable: None,
                            },
                        ),
                    );
                },
                Some(existing) => {
                    self.push_line(
                        DiagnosticLine::Fail(
                            DiagnosticMessage::ShadowProbe {
                                kind_label: probe.emitted_kind_label.clone(),
                                name: probe.candidate_emitted_name.clone(),
                                shadowed_executable: Some(existing.clone()),
                            },
                        ),
                    );
                    self.push_line(
                        DiagnosticLine::Hint(
                            "Pick a different alias, or remove `shell_alias = true` to keep this entry as a `rj <alias>` target only".to_owned(),
                        ),
                    );
                },
            }
            assert(lines_view(self.lines@) =~= before + probe_lines(probe_spec[index as int], shadowing@[index as int]));
            index = index + 1;
        }
        if probes.len() == 0 {
            self.push_text(true, "No entries opted into shell-alias export");
        }
        assert(lines_view(self.lines@) =~= start + shadow_lines(*loaded_configuration, shadowing@));
    }

    /// Number of passed checks.
    pub fn passed_count(&self) -> (passed: usize)
        ensures
            passed == count_passed(lines_view(self.lines@)),
    {
        let mut passed: usize = 0;
        let mut index: usize = 0;
        while index < self.lines.len()
            invariant
                index <= self.lines@.len(),
                passed == count_passed(lines_view(self.lines@).take(index as int)),
            decreases self.lines@.len() - index,
        {
            proof {
                let prefix = lines_view(self.lines@).take(index + 1);
                assert(prefix.drop_last() =~= lines_view(self.lines@).take(index as int));
                lemma_counts_bounded(prefix);
            }
            if let DiagnosticLine::Pass(_) = &self.lines[index] {
                passed = passed + 1;
            }
            index = index + 1;
        }
        assert(lines_view(self.lines@).take(index as int) =~= lines_view(self.lines@));
        passed
    }

    /// Number of failed checks.
    pub fn failed_count(&self) -> (failed: usize)
        ensures
            failed == count_failed(lines_view(self.lines@)),
    {
        let mut failed: usize = 0;
        let mut index: usize = 0;
        while index < self.lines.len()
            invariant
                index <= self.lines@.len(),
                failed == count_failed(lines_view(self.lines@).take(index as int)),
            decreases self.lines@.len() - index,
        {
            proof {
                let prefix = lines_view(self.lines@).take(index + 1);
                assert(prefix.drop_last() =~= lines_view(self.lines@).take(index as int));
                lemma_counts_bounded(prefix);
            }
            if let DiagnosticLine::Fail(_) = &self.lines[index] {
                failed = failed + 1;
            }
            index = index + 1;
        }
        assert(lines_view(self.lines@).take(index as int) =~= lines_view(self.lines@));
        failed
    }
}

/// The whole report: the configuration check, the shell-integration
/// check, and, when the registry loaded, the repository path check and
/// the shell-alias shadow check.
pub fn run_doctor(
    config_path: Option<String>,
    load_result: Result<ReportalConfig, String>,
    integration_loaded: bool,
    home: &Option<String>,
    path_exists: &Vec<bool>,
    shadowing: &Vec<Option<String>>,
) -> (summary: DiagnosticSummary)
    requires
        load_result matches Ok(config) ==> path_exists@.len() == config.repos@.len() && shadowing@.len()
            == shadow_probes(config).len(),
    ensures
        lines_view(summary.lines@) == config_lines(config_path, load_result) + integration_lines(integration_loaded)
            + match (config_path, load_result) {
            (Some(_), Ok(config)) => repo_path_lines(config, *home, path_exists@) + shadow_lines(config, shadowing@),
            _ => seq![],
        },
{
    let ghost path_given = config_path;
    let ghost loaded_given = load_result;
    let mut summary = DiagnosticSummary::new();
    assert(lines_view(summary.lines@) =~= seq![]);
    let loaded_config = summary.check_config(config_path, load_result);
    summary.check_shell_integration(integration_loaded);
    let ghost middle = lines_view(summary.lines@);
    match loaded_config {
        Some(config) => {
            summary.check_repo_paths(&config, home, path_exists);
            summary.check_shell_alias_emission_health(&config, shadowing);
            assert(lines_view(summary.lines@) =~= middle + (repo_path_lines(config, *home, path_exists@) + shadow_lines(
                config,
                shadowing@,
            )));
        },
        None => {
            assert(lines_view(summary.lines@) =~= middle + seq![]);
        },
    }
    assert(middle =~= config_lines(path_given, loaded_given) + integration_lines(integration_loaded));
    summary
}

} // verus!
