use reportal::integration_freshness::{check_integration_file_state, ensure_integration_file_current, IntegrationFileState};

#[test]
fn unreadable_script_is_missing() {
    assert!(matches!(check_integration_file_state(None, "1.2.3"), IntegrationFileState::Missing));
}

#[test]
fn empty_script_is_outdated_with_empty_version() {
    assert!(matches!(check_integration_file_state(Some(""), "1.2.3"), IntegrationFileState::Outdated { file_version } if file_version == "empty"));
}

#[test]
fn stamp_with_running_version_is_current() {
    let script = "# RePortal shell integration — v1.2.3\nexport X=1\n";
    assert!(matches!(check_integration_file_state(Some(script), "1.2.3"), IntegrationFileState::Current));
}

#[test]
fn other_version_is_extracted_from_the_stamp() {
    let script = "# RePortal shell integration — v0.9.0\r\nrest";
    assert!(matches!(
        check_integration_file_state(Some(script), "1.2.3"),
        IntegrationFileState::Outdated { file_version } if file_version == "0.9.0"
    ));
}

#[test]
fn stamp_without_separator_keeps_the_whole_line() {
    assert!(matches!(
        check_integration_file_state(Some("old script\n"), "1.2.3"),
        IntegrationFileState::Outdated { file_version } if file_version == "old script"
    ));
}

#[test]
fn rewrite_only_when_directory_exists_and_script_is_stale() {
    assert!(ensure_integration_file_current(false, None, "1.2.3").is_none());
    let current = "# RePortal shell integration — v1.2.3\n";
    assert!(ensure_integration_file_current(true, Some(current), "1.2.3").is_none());
    let rewritten = ensure_integration_file_current(true, None, "1.2.3").expect("missing script is written");
    assert!(rewritten.starts_with("# RePortal shell integration — v1.2.3\n"));
    assert!(rewritten.contains("export REPORTAL_LOADED=1"));
}
