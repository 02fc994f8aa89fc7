use reportal::config::{HexColor, RepoColor, RepoEntry, ReportalConfig, TabTitle, TagFilter, WorkspaceEntry, WorkspaceMember};
use reportal::error::ReportalError;
use reportal::prompts::ColorEditResult;
use reportal::repo_edit::{edit_field_for, run_edit, EditCommandParams, EditField};
use reportal::repo_edit_mutator::RepoEditFieldMutator;

fn sample_config() -> ReportalConfig {
    let mut config = ReportalConfig::new("code".to_owned());
    let mut app = RepoEntry::at_path("/r/app".to_owned());
    app.description = "An app".to_owned();
    app.tags = vec!["work".to_owned(), "rust".to_owned()];
    app.aliases = vec!["a".to_owned()];
    app.color = RepoColor::Themed(HexColor::parse("#aabbcc").ok().expect("valid"));
    assert!(config.add_repo("app".to_owned(), app).is_ok());
    config
}

fn session_for(config: &ReportalConfig, alias: &str) -> RepoEditFieldMutator {
    let params = EditCommandParams { tag_filter: TagFilter::All, direct_alias: alias };
    run_edit(&params, config, None).expect("session")
}

#[test]
fn session_shows_current_fields() {
    let config = sample_config();
    let session = session_for(&config, "a");
    assert_eq!(session.selected_alias, "a");
    assert_eq!(
        session.build_menu_labels(),
        vec!["Path: /r/app", "Description: An app", "Tags: work, rust", "Title: (use alias)", "Color: #aabbcc", "Done"]
    );
}

#[test]
fn long_fields_are_cut_to_fifty_characters() {
    let session = RepoEditFieldMutator {
        selected_alias: "x".to_owned(),
        current_raw_path: "p".repeat(60),
        current_description: "é".repeat(30),
        current_tags_csv: "€".repeat(55),
        current_title: "t".repeat(60),
        current_color_hex: String::new(),
    };
    let labels = session.build_menu_labels();
    assert_eq!(labels[0], format!("Path: {}", "p".repeat(50)));
    assert_eq!(labels[1], format!("Description: {}", "é".repeat(30)));
    assert_eq!(labels[2], format!("Tags: {}", "€".repeat(50)));
    assert_eq!(labels[3], format!("Title: {}", "t".repeat(60)));
    assert_eq!(labels[4], "Color: (none)");
}

#[test]
fn menu_rows_map_to_fields() {
    assert!(edit_field_for(Some(0)) == Some(EditField::Path));
    assert!(edit_field_for(Some(4)) == Some(EditField::Color));
    assert!(edit_field_for(Some(5)).is_none());
    assert!(edit_field_for(None).is_none());
}

#[test]
fn tags_edit_replaces_the_list() {
    let mut config = sample_config();
    let mut session = session_for(&config, "app");
    assert!(session.apply_tags_edit(&mut config, " a , , b ").is_ok());
    assert_eq!(config.repos[0].1.tags, vec!["a".to_owned(), "b".to_owned()]);
    assert_eq!(session.current_tags_csv, "a, b");
}

#[test]
fn title_edit_maps_empty_to_alias() {
    let mut config = sample_config();
    let mut session = session_for(&config, "app");
    assert!(session.apply_title_edit(&mut config, "Shown".to_owned()).is_ok());
    assert!(matches!(&config.repos[0].1.title, TabTitle::Custom(title) if title == "Shown"));
    assert!(session.apply_title_edit(&mut config, String::new()).is_ok());
    assert!(matches!(config.repos[0].1.title, TabTitle::UseAlias));
    assert_eq!(session.current_title, "");
}

#[test]
fn color_edit_clears_or_sets() {
    let mut config = sample_config();
    let mut session = session_for(&config, "app");
    assert!(session.apply_color_edit(&mut config, ColorEditResult::Cleared).is_ok());
    assert!(matches!(config.repos[0].1.color, RepoColor::ResetToDefault));
    assert_eq!(session.current_color_hex, "");
    let new_color = HexColor::parse("#010203").ok().expect("valid");
    assert!(session.apply_color_edit(&mut config, ColorEditResult::Provided(new_color)).is_ok());
    assert_eq!(session.current_color_hex, "#010203");
}

#[test]
fn description_edit_writes_through() {
    let mut config = sample_config();
    let mut session = session_for(&config, "app");
    assert!(session.apply_description_edit(&mut config, "New".to_owned()).is_ok());
    assert_eq!(config.repos[0].1.description, "New");
    assert_eq!(session.current_description, "New");
}

#[test]
fn path_edit_validates_before_writing() {
    let mut config = sample_config();
    let mut session = session_for(&config, "app");
    let empty = session.apply_path_edit(&mut config, "   ", true, &None);
    assert!(matches!(empty, Err(ReportalError::ValidationFailure { field, reason }) if field == "path" && reason == "must not be empty"));
    let missing = session.apply_path_edit(&mut config, "~/gone", false, &Some("/home/me".to_owned()));
    assert!(matches!(missing, Err(ReportalError::ValidationFailure { reason, .. }) if reason == "/home/me/gone does not exist"));
    assert_eq!(config.repos[0].1.path, "/r/app");
    assert!(session.apply_path_edit(&mut config, "~/moved", true, &None).is_ok());
    assert_eq!(config.repos[0].1.path, "~/moved");
    assert_eq!(session.current_raw_path, "~/moved");
}

#[test]
fn edits_fail_when_repository_is_gone() {
    let mut config = sample_config();
    let mut session = session_for(&config, "app");
    session.selected_alias = "vanished".to_owned();
    assert!(matches!(session.apply_description_edit(&mut config, "x".to_owned()), Err(ReportalError::RepoNotFound { .. })));
    assert_eq!(config.repos[0].1.description, "An app");
}

#[test]
fn path_change_regenerates_containing_workspaces() {
    let mut config = sample_config();
    let mut workspace = WorkspaceEntry::of_members(vec![WorkspaceMember::RegisteredRepo("app".to_owned())]);
    workspace.directory = "/ws/one".to_owned();
    assert!(config.add_workspace("one".to_owned(), workspace).is_ok());
    assert!(config.add_workspace("other".to_owned(), WorkspaceEntry::of_members(vec![])).is_ok());
    let session = session_for(&config, "app");
    let plans = session.regenerate_affected_workspaces(&config, &None).expect("plans");
    assert_eq!(plans.len(), 1);
    assert_eq!(plans[0].workspace_file_path, "/ws/one/one.code-workspace");
}
