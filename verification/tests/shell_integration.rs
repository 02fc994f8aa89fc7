use reportal::cli_args::InitializeShell;
use reportal::detected_shell::{
    integration_file_path, is_reportal_function_line, powershell_profile_update, strip_existing_integration,
    unix_profile_update, DetectedShell,
};
use reportal::shell_integration_autowire::{
    compose_fenced_block, current_shell_integration_loaded_state, ensure_shell_integration_installed, eval_line,
    install_if_missing, interpret_shell_basename, leading_newline_policy_for, rc_file_for, report_appended,
    report_failure, shell_from_environment, AutoWireOperationLeadingNewlinePolicy, AutoWireOperationLoadedState,
    AutoWireOperationRcFileError, AutoWireOperationRcFileOperationKind, InstallPlan,
};

#[test]
fn loaded_state_reads_the_marker() {
    assert!(current_shell_integration_loaded_state(None) == AutoWireOperationLoadedState::NotLoadedInCurrentShell);
    assert!(current_shell_integration_loaded_state(Some("1")) == AutoWireOperationLoadedState::LoadedInCurrentShell);
    assert!(AutoWireOperationLoadedState::classify_against_parent_pid("4242", Some(4242)) == AutoWireOperationLoadedState::LoadedInCurrentShell);
    assert!(AutoWireOperationLoadedState::classify_against_parent_pid("4243", Some(4242)) == AutoWireOperationLoadedState::NotLoadedInCurrentShell);
    assert!(AutoWireOperationLoadedState::classify_against_parent_pid("4242", None) == AutoWireOperationLoadedState::NotLoadedInCurrentShell);
    assert!(ensure_shell_integration_installed(AutoWireOperationLoadedState::NotLoadedInCurrentShell));
    assert!(!ensure_shell_integration_installed(AutoWireOperationLoadedState::LoadedInCurrentShell));
}

#[test]
fn marker_naming_another_process_is_not_loaded_here() {
    assert!(current_shell_integration_loaded_state(Some("not-a-pid")) == AutoWireOperationLoadedState::NotLoadedInCurrentShell);
}

#[test]
fn shells_are_recognised_from_names_and_paths() {
    assert!(interpret_shell_basename("zsh") == Some(InitializeShell::Zsh));
    assert!(interpret_shell_basename("pwsh") == Some(InitializeShell::Powershell));
    assert!(interpret_shell_basename("fish").is_none());
    assert!(shell_from_environment(Some("/usr/bin/BASH")) == Some(InitializeShell::Bash));
    assert!(shell_from_environment(None).is_none());
}

#[test]
fn rc_files_per_shell() {
    let home = Some("/home/me".to_owned());
    assert_eq!(rc_file_for(InitializeShell::Zsh, &home, None), Some("/home/me/.zshrc".to_owned()));
    assert_eq!(rc_file_for(InitializeShell::Bash, &home, None), Some("/home/me/.bashrc".to_owned()));
    assert_eq!(
        rc_file_for(InitializeShell::Powershell, &home, None),
        Some("/home/me/Documents/PowerShell/Microsoft.PowerShell_profile.ps1".to_owned())
    );
    assert_eq!(rc_file_for(InitializeShell::Powershell, &None, Some("/p.ps1")), Some("/p.ps1".to_owned()));
    assert_eq!(rc_file_for(InitializeShell::Zsh, &None, None), None);
}

#[test]
fn fenced_block_layout() {
    assert!(leading_newline_policy_for("x") == AutoWireOperationLeadingNewlinePolicy::InsertSeparator);
    assert!(leading_newline_policy_for("x\n") == AutoWireOperationLeadingNewlinePolicy::NoSeparator);
    assert_eq!(
        compose_fenced_block(InitializeShell::Bash, AutoWireOperationLeadingNewlinePolicy::InsertSeparator),
        "\n\n# >>> reportal shell integration (do not edit) >>>\neval \"$(rep init bash)\"\n# <<< reportal shell integration <<<\n"
    );
    assert_eq!(eval_line(InitializeShell::Powershell), "Invoke-Expression (& rep init powershell | Out-String)");
}

#[test]
fn install_plan_is_idempotent() {
    let existing = "export A=1\n# >>> reportal shell integration (do not edit) >>>\n";
    assert!(matches!(install_if_missing(InitializeShell::Zsh, "/h/.zshrc", Some(existing), true), InstallPlan::AlreadyPresent));
    match install_if_missing(InitializeShell::Zsh, "/h/cfg/.zshrc", None, false) {
        InstallPlan::Append { block, create_parent } => {
            assert!(block.starts_with("\n# >>> reportal"));
            assert_eq!(create_parent, Some("/h/cfg".to_owned()));
        },
        InstallPlan::AlreadyPresent => panic!("expected an append"),
    }
    match install_if_missing(InitializeShell::Bash, "/h/.bashrc", Some("alias x=y"), true) {
        InstallPlan::Append { block, create_parent } => {
            assert!(block.starts_with("\n\n# >>> reportal"));
            assert!(create_parent.is_none());
        },
        InstallPlan::AlreadyPresent => panic!("expected an append"),
    }
}

#[test]
fn notices_name_the_file_and_the_manual_line() {
    assert_eq!(
        report_appended("/h/.zshrc"),
        "RePortal: added shell integration to /h/.zshrc — run 'source /h/.zshrc' or open a new shell to activate."
    );
    assert_eq!(
        report_failure("denied", InitializeShell::Zsh),
        "RePortal: note: could not auto-wire shell integration (denied); add `eval \"$(rep init zsh)\"` to your rc file manually."
    );
    let error = AutoWireOperationRcFileError {
        rc_file_path: "/h/.zshrc".to_owned(),
        operation_kind: AutoWireOperationRcFileOperationKind::Write,
        source_text: "disk full".to_owned(),
    };
    assert_eq!(error.describe(), "auto-wire rc-file Write on /h/.zshrc: disk full");
}

#[test]
fn detected_shell_follows_shell_variable() {
    let home = Some("/home/me".to_owned());
    assert!(matches!(DetectedShell::detect(Some("/bin/zsh"), &home), DetectedShell::Zsh(path) if path == "/home/me/.zshrc"));
    assert!(matches!(DetectedShell::detect(Some("/bin/bash"), &home), DetectedShell::Bash(path) if path == "/home/me/.bashrc"));
    assert!(matches!(DetectedShell::detect(None, &home), DetectedShell::Unknown));
    assert!(DetectedShell::Unknown.profile_path().is_none());
    assert_eq!(integration_file_path("/home/me/.reportal"), "/home/me/.reportal/integration.sh");
}

#[test]
fn old_integration_is_stripped_from_profiles() {
    let profile = "export A=1\n# RePortal shell integration — v1\nrj() { cd \"$(rep jump \"$@\")\"; rep color; }\n\nalias x=y\nfunction rw() { }\n";
    assert_eq!(strip_existing_integration(profile), "export A=1\nalias x=y");
    assert_eq!(unix_profile_update(profile, "/h/.reportal/integration.sh"), "export A=1\nalias x=y\nsource \"/h/.reportal/integration.sh\"\n");
    assert!(is_reportal_function_line(&"rr() {".chars().collect::<Vec<char>>()));
}

#[test]
fn powershell_profile_rewritten_only_when_changed() {
    assert_eq!(powershell_profile_update("Set-Alias ll ls"), None);
    assert_eq!(powershell_profile_update("Set-Alias ll ls\n"), Some("Set-Alias ll ls\n".to_owned()));
    let with_block = "Set-Alias ll ls\n# RePortal shell integration\nfunction global:rj { }\n";
    assert_eq!(powershell_profile_update(with_block), Some("Set-Alias ll ls\n".to_owned()));
}

#[test]
fn reinstalling_the_profile_line_changes_nothing() {
    let script = "/home/me/.reportal/integration.sh";
    let profile = "export A=1\r\n# RePortal shell integration — v0.1\nrj() { cd \"$(rep jump \"$@\")\"; }\n\nalias ll='ls -l'";
    let once = unix_profile_update(profile, script);
    assert_eq!(once, "export A=1\nalias ll='ls -l'\nsource \"/home/me/.reportal/integration.sh\"\n");
    assert_eq!(unix_profile_update(&once, script), once);
    let fresh = unix_profile_update("", script);
    assert_eq!(fresh, "\nsource \"/home/me/.reportal/integration.sh\"\n");
    assert_eq!(unix_profile_update(&fresh, script), fresh);
}

#[test]
fn stripping_keeps_a_profile_without_integration_whole() {
    let profile = "export A=1\r\n\nalias ll='ls -l'\n# my notes\n";
    assert_eq!(strip_existing_integration(profile), "export A=1\n\nalias ll='ls -l'\n# my notes");
    let mixed = "a\nrj() { x; }\nb\n# RePortal old\nc";
    assert_eq!(strip_existing_integration(mixed), "a\nb\nc");
}
