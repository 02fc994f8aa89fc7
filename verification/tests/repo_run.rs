use reportal::config::{CommandEntry, RepoEntry, ReportalConfig, ShellAliasExport, TagFilter};
use reportal::error::ReportalError;
use reportal::repo_run::{command_menu_labels, merge_commands, resolve_command, run_run, RunCommandParameters};
use reportal::terminal_identity_emit::TabColorAction;

fn command(shell: &str, description: &str) -> CommandEntry {
    CommandEntry { command: shell.to_owned(), description: description.to_owned(), shell_alias: ShellAliasExport::Disabled }
}

fn globals() -> Vec<(String, CommandEntry)> {
    vec![
        ("build".to_owned(), command("make", "Build it")),
        ("test".to_owned(), command("make test", "")),
    ]
}

fn repo_commands() -> Vec<(String, CommandEntry)> {
    vec![
        ("deploy".to_owned(), command("./deploy.sh", "")),
        ("test".to_owned(), command("cargo test", "Run tests")),
    ]
}

#[test]
fn repo_commands_override_globals_and_extend_them() {
    let global = globals();
    let repo = repo_commands();
    let merged = merge_commands(&global, &repo);
    let names: Vec<&str> = merged.iter().map(|(name, _)| *name).collect();
    assert_eq!(names, vec!["build", "test", "deploy"]);
    assert_eq!(merged[1].1.command, "cargo test");
    assert_eq!(merged[0].1.command, "make");
}

#[test]
fn menu_labels_prefer_description_over_shell_text() {
    let labels = command_menu_labels(&globals(), &repo_commands());
    assert_eq!(labels, vec!["build — Build it", "test — Run tests", "deploy — ./deploy.sh"]);
}

#[test]
fn direct_command_prefers_repository_definition() {
    let resolved = resolve_command(&globals(), &repo_commands(), "test", None).expect("test exists");
    assert_eq!(resolved.command_name, "test");
    assert_eq!(resolved.shell_command, "cargo test");
    let global_only = resolve_command(&globals(), &repo_commands(), "build", None).expect("build exists");
    assert_eq!(global_only.shell_command, "make");
}

#[test]
fn unknown_direct_command_is_not_found() {
    let outcome = resolve_command(&globals(), &repo_commands(), "lint", None);
    assert!(matches!(outcome, Err(ReportalError::CommandNotFound { command_name }) if command_name == "lint"));
}

#[test]
fn no_commands_anywhere_is_reported_first() {
    let outcome = resolve_command(&Vec::new(), &Vec::new(), "anything", Some(0));
    assert!(matches!(outcome, Err(ReportalError::NoCommandsAvailable)));
}

#[test]
fn menu_row_picks_merged_command() {
    let resolved = resolve_command(&globals(), &repo_commands(), "", Some(2)).expect("row 2");
    assert_eq!(resolved.command_name, "deploy");
    assert_eq!(resolved.shell_command, "./deploy.sh");
    assert!(matches!(resolve_command(&globals(), &repo_commands(), "", Some(3)), Err(ReportalError::SelectionCancelled)));
    assert!(matches!(resolve_command(&globals(), &repo_commands(), "", None), Err(ReportalError::SelectionCancelled)));
}

#[test]
fn run_plan_runs_in_expanded_repository_path() {
    let mut config = ReportalConfig::new("code".to_owned());
    config.commands = globals();
    let mut entry = RepoEntry::at_path("~/dev/app".to_owned());
    entry.commands = repo_commands();
    assert!(config.add_repo("app".to_owned(), entry).is_ok());
    let params = RunCommandParameters { tag_filter: TagFilter::All, direct_alias: "app", direct_command: "test" };
    let plan = run_run(&params, &config, &Some("/home/me".to_owned()), None, None).expect("plan");
    assert_eq!(plan.command.shell_command, "cargo test");
    assert_eq!(plan.repo_path, "/home/me/dev/app");
    assert_eq!(plan.identity.resolved_title, "app");
    assert!(matches!(plan.identity.tab_color_action, TabColorAction::Reset));
}
