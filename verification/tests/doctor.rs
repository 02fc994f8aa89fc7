use reportal::config::{CommandEntry, RepoEntry, ReportalConfig, ShellAliasExport, WorkspaceEntry};
use reportal::doctor::{repo_paths_to_check, run_doctor, shadow_probes_of, DiagnosticLine, DiagnosticMessage, DiagnosticSummary};

fn opted_in_config() -> ReportalConfig {
    let mut config = ReportalConfig::new("code".to_owned());
    let mut app = RepoEntry::at_path("~/app".to_owned());
    app.shell_alias = ShellAliasExport::Enabled;
    app.aliases = vec!["ap".to_owned()];
    assert!(config.add_repo("app".to_owned(), app).is_ok());
    assert!(config.add_repo("quiet".to_owned(), RepoEntry::at_path("/q".to_owned())).is_ok());
    let mut workspace = WorkspaceEntry::of_members(vec![]);
    workspace.shell_alias = ShellAliasExport::Enabled;
    assert!(config.add_workspace("venoble".to_owned(), workspace).is_ok());
    config.commands = vec![(
        "ls".to_owned(),
        CommandEntry { command: "ls -la".to_owned(), description: String::new(), shell_alias: ShellAliasExport::Enabled },
    )];
    config
}

#[test]
fn probes_follow_repositories_workspaces_then_commands() {
    let probes = shadow_probes_of(&opted_in_config());
    let pairs: Vec<(String, String)> = probes
        .iter()
        .map(|probe| (probe.candidate_emitted_name.clone(), probe.emitted_kind_label.clone()))
        .collect();
    assert_eq!(
        pairs,
        vec![
            ("app".to_owned(), "repository canonical".to_owned()),
            ("ap".to_owned(), "repository alias".to_owned()),
            ("venoble".to_owned(), "workspace canonical".to_owned()),
            ("ls".to_owned(), "command".to_owned()),
        ]
    );
}

#[test]
fn repo_paths_are_expanded() {
    let paths = repo_paths_to_check(&opted_in_config(), &Some("/home/me".to_owned()));
    assert_eq!(paths, vec!["/home/me/app".to_owned(), "/q".to_owned()]);
}

fn describe(line: &DiagnosticLine) -> String {
    match line {
        DiagnosticLine::Section(title) => format!("## {title}"),
        DiagnosticLine::Hint(text) => format!("-> {text}"),
        DiagnosticLine::Pass(message) => format!("ok {}", message_text(message)),
        DiagnosticLine::Fail(message) => format!("FAIL {}", message_text(message)),
    }
}

fn message_text(message: &DiagnosticMessage) -> String {
    match message {
        DiagnosticMessage::Text(text) => text.clone(),
        DiagnosticMessage::RepoPath { alias, path } => format!("{alias}  {path}"),
        DiagnosticMessage::ShadowProbe { kind_label, name, shadowed_executable } => match shadowed_executable {
            Some(existing) => format!("{kind_label}  {name} shadows {existing}"),
            None => format!("{kind_label}  {name}"),
        },
    }
}

#[test]
fn full_report_counts_passes_and_failures() {
    let config = opted_in_config();
    let summary = run_doctor(
        Some("/home/me/.reportal/config.toml".to_owned()),
        Ok(config),
        false,
        &Some("/home/me".to_owned()),
        &vec![true, false],
        &vec![None, None, None, Some("/bin/ls".to_owned())],
    );
    let lines: Vec<String> = summary.lines.iter().map(describe).collect();
    assert_eq!(
        lines,
        vec![
            "## Config",
            "ok Config loaded from /home/me/.reportal/config.toml (2 repos registered)",
            "## Shell Integration",
            "FAIL Shell integration NOT loaded in current session",
            "-> Add eval \"$(rep init zsh)\" (or bash/powershell) to your shell rc file",
            "## Repo Paths",
            "ok app  /home/me/app",
            "FAIL quiet  /q",
            "## Shell Alias Shadows",
            "ok repository canonical  app",
            "ok repository alias  ap",
            "ok workspace canonical  venoble",
            "FAIL command  ls shadows /bin/ls",
            "-> Pick a different alias, or remove `shell_alias = true` to keep this entry as a `rj <alias>` target only",
        ]
    );
    assert_eq!(summary.passed_count(), 5);
    assert_eq!(summary.failed_count(), 3);
}

#[test]
fn failed_load_skips_the_registry_checks() {
    let summary = run_doctor(Some("/c.toml".to_owned()), Err("bad toml".to_owned()), true, &None, &vec![], &vec![]);
    let lines: Vec<String> = summary.lines.iter().map(describe).collect();
    assert_eq!(
        lines,
        vec![
            "## Config",
            "FAIL Config failed to load: bad toml",
            "-> Check ~/.reportal/config.toml for syntax errors",
            "## Shell Integration",
            "ok Shell integration loaded in current session",
        ]
    );
}

#[test]
fn unknown_config_path_fails_without_loading() {
    let mut summary = DiagnosticSummary::new();
    let loaded = summary.check_config(None, Ok(ReportalConfig::new("code".to_owned())));
    assert!(loaded.is_none());
    assert_eq!(describe(&summary.lines[1]), "FAIL Could not determine config path");
}

#[test]
fn empty_registry_reports_no_repos_and_no_opt_ins() {
    let config = ReportalConfig::new("code".to_owned());
    let summary = run_doctor(Some("/c".to_owned()), Ok(config), true, &None, &vec![], &vec![]);
    let lines: Vec<String> = summary.lines.iter().map(describe).collect();
    assert_eq!(lines[4], "## Repo Paths");
    assert_eq!(lines[5], "FAIL No repos registered");
    assert_eq!(lines[6], "-> Run 'rep add <path>' to register a repo");
    assert_eq!(lines[7], "## Shell Alias Shadows");
    assert_eq!(lines[8], "ok No entries opted into shell-alias export");
    assert_eq!(lines.len(), 9);
    assert_eq!(summary.failed_count(), 1);
}
