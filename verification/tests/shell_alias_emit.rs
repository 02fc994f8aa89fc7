use reportal::cli_args::InitializeShell;
use reportal::config::{CommandEntry, RepoEntry, ReportalConfig, ShellAliasExport, WorkspaceEntry};
use reportal::shell_alias_emit::{
    is_emittable_function_name, shell_alias_export_snippet, ShellAliasEmissionParameters,
};

#[test]
fn rejects_empty_function_name() {
    assert!(!is_emittable_function_name(""));
}

#[test]
fn rejects_builtin_collision() {
    assert!(!is_emittable_function_name("rj"));
    assert!(!is_emittable_function_name("rjw"));
    assert!(!is_emittable_function_name("rr"));
}

#[test]
fn allows_hyphenated_repository_alias() {
    assert!(is_emittable_function_name("venoble-app"));
}

#[test]
fn rejects_leading_digit() {
    assert!(!is_emittable_function_name("4chan"));
}

#[test]
fn rejects_special_characters() {
    assert!(!is_emittable_function_name("foo bar"));
    assert!(!is_emittable_function_name("foo.bar"));
    assert!(!is_emittable_function_name("foo/bar"));
}

#[test]
fn accepts_underscore_or_hyphen_start() {
    assert!(is_emittable_function_name("_tool"));
    assert!(is_emittable_function_name("-tool"));
    assert!(!is_emittable_function_name("é"));
    assert!(is_emittable_function_name("ro2"));
}

fn opted_in_config() -> ReportalConfig {
    let mut config = ReportalConfig::new("code".to_owned());
    config.commands.push((
        "uc".to_owned(),
        CommandEntry {
            command: "make update".to_owned(),
            description: String::new(),
            shell_alias: ShellAliasExport::Enabled,
        },
    ));
    let mut repo = RepoEntry::at_path("/tmp/vna".to_owned());
    repo.shell_alias = ShellAliasExport::Enabled;
    repo.aliases = vec!["uc".to_owned(), "v".to_owned(), "bad name".to_owned()];
    config.add_repo("vna".to_owned(), repo).ok().unwrap();
    let mut workspace = WorkspaceEntry::of_members(Vec::new());
    workspace.shell_alias = ShellAliasExport::Enabled;
    config.add_workspace("rj".to_owned(), workspace).ok().unwrap();
    config
}

#[test]
fn bash_snippet_lists_first_occurrence_of_each_name() {
    let config = opted_in_config();
    let snippet = shell_alias_export_snippet(&ShellAliasEmissionParameters {
        target_shell: InitializeShell::Bash,
        configuration: &config,
    });
    let expected = "# RePortal user-config shell aliases — generated from `shell_alias = true` entries.\n\
unalias uc 2>/dev/null\n\
function uc() { rep run --cmd uc \"$@\"; }\n\
unalias vna 2>/dev/null\n\
function vna() { cd \"$(rep jump vna)\"; rep color; }\n\
unalias v 2>/dev/null\n\
function v() { cd \"$(rep jump v)\"; rep color; }\n";
    assert_eq!(snippet, expected);
}

#[test]
fn powershell_snippet_uses_global_functions() {
    let config = opted_in_config();
    let snippet = shell_alias_export_snippet(&ShellAliasEmissionParameters {
        target_shell: InitializeShell::Powershell,
        configuration: &config,
    });
    assert!(snippet.contains(
        "Remove-Item Alias:vna -ErrorAction SilentlyContinue; function global:vna { Set-Location (rep jump vna); rep color }\n"
    ));
    assert!(snippet.contains(
        "Remove-Item Alias:uc -ErrorAction SilentlyContinue; function global:uc { rep run --cmd uc @args }\n"
    ));
}

#[test]
fn nothing_opted_in_gives_empty_snippet() {
    let config = ReportalConfig::new("code".to_owned());
    let snippet = shell_alias_export_snippet(&ShellAliasEmissionParameters {
        target_shell: InitializeShell::Zsh,
        configuration: &config,
    });
    assert_eq!(snippet, "");
}

#[test]
fn workspace_entries_jump_into_workspaces() {
    let mut config = ReportalConfig::new("code".to_owned());
    let mut workspace = WorkspaceEntry::of_members(Vec::new());
    workspace.shell_alias = ShellAliasExport::Enabled;
    workspace.aliases = vec!["fe".to_owned()];
    config.add_workspace("frontend".to_owned(), workspace).ok().unwrap();
    let snippet = shell_alias_export_snippet(&ShellAliasEmissionParameters {
        target_shell: InitializeShell::Zsh,
        configuration: &config,
    });
    assert!(snippet.contains("function frontend() { cd \"$(rep workspace jump frontend)\"; rep color; }\n"));
    assert!(snippet.contains("function fe() { cd \"$(rep workspace jump fe)\"; rep color; }\n"));
}
