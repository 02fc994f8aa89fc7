use reportal::config::{PathDisplayFormat, PathVisibility, RepoEntry, ReportalConfig, WorkspaceEntry, WorkspaceMember};
use reportal::error::ReportalError;
use reportal::workspace_jump::run_workspace_jump;
use reportal::workspace_open::run_workspace_open;

fn sample_config() -> ReportalConfig {
    let mut config = ReportalConfig::new("code".to_owned());
    assert!(config.add_repo("api".to_owned(), RepoEntry::at_path("/r/api".to_owned())).is_ok());
    let mut custom = WorkspaceEntry::of_members(vec![WorkspaceMember::RegisteredRepo("api".to_owned())]);
    custom.directory = "/ws/custom".to_owned();
    custom.aliases = vec!["c".to_owned()];
    assert!(config.add_workspace("custom".to_owned(), custom).is_ok());
    let broken = WorkspaceEntry::of_members(vec![WorkspaceMember::RegisteredRepo("ghost".to_owned())]);
    assert!(config.add_workspace("broken".to_owned(), broken).is_ok());
    config
}

#[test]
fn jump_by_alias_lands_in_configured_directory() {
    let config = sample_config();
    let jump = run_workspace_jump(&config, "c", None, &None).expect("jump");
    assert_eq!(jump.printed_path, "/ws/custom");
    assert!(jump.echoed_path.is_none());
}

#[test]
fn jump_menu_uses_name_order() {
    let config = sample_config();
    let target = run_workspace_jump(&config, "", Some(0), &Some("/h".to_owned())).expect("jump");
    assert_eq!(target.printed_path, "/h/.reportal/workspaces/broken");
    assert!(matches!(run_workspace_jump(&config, "", None, &None), Err(ReportalError::SelectionCancelled)));
}

#[test]
fn jump_without_workspaces_reports_none_configured() {
    let config = ReportalConfig::new("code".to_owned());
    assert!(matches!(run_workspace_jump(&config, "", Some(0), &None), Err(ReportalError::NoWorkspacesConfigured)));
    assert!(matches!(run_workspace_jump(&config, "x", None, &None), Err(ReportalError::WorkspaceNotFound { name }) if name == "x"));
}

#[test]
fn open_reports_missing_member() {
    let config = sample_config();
    assert!(matches!(run_workspace_open(&config, "broken", None, &None), Err(ReportalError::RepoNotFound { alias }) if alias == "ghost"));
}

#[test]
fn open_plans_layout_in_configured_directory() {
    let config = sample_config();
    let plan = run_workspace_open(&config, "custom", None, &None).expect("open");
    assert_eq!(plan.canonical_name, "custom");
    assert_eq!(plan.layout.workspace_file_path, "/ws/custom/custom.code-workspace");
    assert_eq!(plan.layout.folder_paths, vec!["./api".to_owned()]);
}

#[test]
fn jump_prints_and_echoes_in_the_display_format() {
    let mut config = sample_config();
    config.path_on_select = PathVisibility::Show;
    config.path_display_format = PathDisplayFormat::ForwardSlashes;
    config.workspaces[1].1.directory = "C:\\ws\\custom".to_owned();
    let jump = run_workspace_jump(&config, "c", None, &None).expect("jump");
    assert_eq!(jump.printed_path, "C:/ws/custom");
    assert_eq!(jump.echoed_path, Some("C:/ws/custom".to_owned()));
}
