use reportal::cli_args::InitializeShell;
use reportal::config::{RepoEntry, ReportalConfig, ShellAliasExport};
use reportal::initialization::run_initialize;
use reportal::shell_prompt_badge::prompt_badge_integration_snippet;

#[test]
fn bash_badge_hook_discards_errors_and_reregisters() {
    let snippet = prompt_badge_integration_snippet(InitializeShell::Bash);
    assert!(snippet.starts_with("\n_REPORTAL_LAST_BADGE_BASH=\"\"\n"));
    assert!(snippet.contains("_b=$(rep prompt --shell bash 2>/dev/null)"));
    assert!(snippet.contains("PS1=\"${PS1#$_REPORTAL_LAST_BADGE_BASH}\""));
    assert!(snippet.ends_with("PROMPT_COMMAND=\"${PROMPT_COMMAND:+$PROMPT_COMMAND;}_reportal_prompt_badge_hook\"\n"));
}

#[test]
fn zsh_badge_hook_moves_itself_last() {
    let snippet = prompt_badge_integration_snippet(InitializeShell::Zsh);
    assert!(snippet.contains("precmd_functions=(${precmd_functions:#_reportal_prompt_badge_hook} _reportal_prompt_badge_hook)"));
    assert!(snippet.contains("autoload -Uz add-zsh-hook 2>/dev/null || true"));
}

#[test]
fn powershell_badge_wraps_prompt() {
    let snippet = prompt_badge_integration_snippet(InitializeShell::Powershell);
    assert!(snippet.contains("function global:prompt {"));
    assert!(snippet.contains("rep prompt --shell powershell 2>$null"));
}

#[test]
fn init_script_is_base_then_badge_then_aliases() {
    let mut config = ReportalConfig::new("code".to_owned());
    let mut app = RepoEntry::at_path("/r/app".to_owned());
    app.shell_alias = ShellAliasExport::Enabled;
    assert!(config.add_repo("app".to_owned(), app).is_ok());
    let with_aliases = run_initialize(InitializeShell::Zsh, "2.0.0", Some(&config));
    let without = run_initialize(InitializeShell::Zsh, "2.0.0", None);
    let badge = prompt_badge_integration_snippet(InitializeShell::Zsh);
    assert!(without.starts_with("# RePortal shell integration — v2.0.0\n"));
    assert!(without.ends_with(&badge));
    assert!(with_aliases.starts_with(&without));
    assert!(with_aliases.len() > without.len());
    assert!(with_aliases[without.len()..].contains("app"));
}

#[test]
fn powershell_init_uses_powershell_base() {
    let script = run_initialize(InitializeShell::Powershell, "2.0.0", None);
    assert!(script.contains("$env:REPORTAL_LOADED = \"1\""));
}
