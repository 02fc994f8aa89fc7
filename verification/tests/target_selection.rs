use reportal::config::{RepoEntry, ReportalConfig, TagFilter, WorkspaceEntry, WorkspaceMember};
use reportal::error::ReportalError;
use reportal::target_selection::{select_target, target_menu_labels, SelectedTarget, SelectedTargetParameters};

fn sample_config() -> ReportalConfig {
    let mut config = ReportalConfig::new("code".to_owned());
    let mut tagged = RepoEntry::at_path("/r/api".to_owned());
    tagged.tags = vec!["work".to_owned()];
    assert!(config.add_repo("api".to_owned(), tagged).is_ok());
    assert!(config.add_repo("blog".to_owned(), RepoEntry::at_path("/r/blog".to_owned())).is_ok());
    let mut workspace = WorkspaceEntry::of_members(vec![WorkspaceMember::RegisteredRepo("api".to_owned())]);
    workspace.aliases = vec!["v".to_owned()];
    workspace.description = "main".to_owned();
    assert!(config.add_workspace("venoble".to_owned(), workspace).is_ok());
    config
}

#[test]
fn menu_lists_repos_then_workspaces() {
    let config = sample_config();
    let filter = TagFilter::All;
    let params = SelectedTargetParameters { loaded_config: &config, tag_filter: &filter, prompt_label: "Go" };
    let labels = target_menu_labels(&params);
    assert_eq!(labels, vec!["api [work]".to_owned(), "blog".to_owned(), "▣▣ VENOBLE (v) — main [workspace]".to_owned()]);
}

#[test]
fn tag_filter_hides_workspaces() {
    let config = sample_config();
    let filter = TagFilter::ByTag("work".to_owned());
    let params = SelectedTargetParameters { loaded_config: &config, tag_filter: &filter, prompt_label: "Go" };
    assert_eq!(target_menu_labels(&params).len(), 1);
    assert!(matches!(select_target(&params, Some(1)), Err(ReportalError::SelectionCancelled)));
}

#[test]
fn rows_map_to_repos_and_workspaces() {
    let config = sample_config();
    let filter = TagFilter::All;
    let params = SelectedTargetParameters { loaded_config: &config, tag_filter: &filter, prompt_label: "Go" };
    assert!(matches!(select_target(&params, Some(1)), Ok(SelectedTarget::Repo(alias)) if alias == "blog"));
    assert!(matches!(select_target(&params, Some(2)), Ok(SelectedTarget::Workspace(name)) if name == "venoble"));
    assert!(matches!(select_target(&params, Some(3)), Err(ReportalError::SelectionCancelled)));
    assert!(matches!(select_target(&params, None), Err(ReportalError::SelectionCancelled)));
}

#[test]
fn empty_menu_reports_no_match() {
    let config = ReportalConfig::new("code".to_owned());
    let filter = TagFilter::All;
    let params = SelectedTargetParameters { loaded_config: &config, tag_filter: &filter, prompt_label: "Go" };
    assert!(matches!(select_target(&params, Some(0)), Err(ReportalError::NoReposMatchFilter)));
}
