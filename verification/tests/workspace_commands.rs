use reportal::config::{RepoEntry, ReportalConfig, WorkspaceEntry, WorkspaceMember};
use reportal::error::ReportalError;
use reportal::repo_remove::run_remove;
use reportal::workspace_create::{reinterpret_custom_path_as_directory, run_workspace_create, WorkspaceCreateParts};
use reportal::workspace_delete::run_workspace_delete;
use reportal::workspace_listing::run_workspace_list;
use reportal::workspace_members::{run_workspace_add_repo, run_workspace_remove_repo};
use reportal::workspace_rebuild::run_workspace_rebuild;
use reportal::workspace_selection::{select_workspace, workspace_menu};
use reportal::workspace_show::run_workspace_show;

fn base_config() -> ReportalConfig {
    let mut config = ReportalConfig::new("code".to_owned());
    assert!(config.add_repo("api".to_owned(), RepoEntry::at_path("~/api".to_owned())).is_ok());
    assert!(config.add_repo("web".to_owned(), RepoEntry::at_path("/src/web".to_owned())).is_ok());
    config
}

fn create(config: &mut ReportalConfig, name: &str, repos: &[&str], path: &str) -> Result<(), ReportalError> {
    run_workspace_create(
        config,
        WorkspaceCreateParts {
            workspace_name: name.to_owned(),
            repo_aliases: repos.iter().map(|alias| (*alias).to_owned()).collect(),
            description: "desc".to_owned(),
            custom_file_path: path.to_owned(),
            workspace_aliases: vec!["w".to_owned()],
        },
    )
}

#[test]
fn custom_path_to_workspace_file_becomes_its_directory() {
    assert_eq!(reinterpret_custom_path_as_directory("  /ws/nro/nro.CODE-WORKSPACE "), "/ws/nro");
    assert_eq!(reinterpret_custom_path_as_directory("/ws/nro"), "/ws/nro");
    assert_eq!(reinterpret_custom_path_as_directory("   "), "");
}

#[test]
fn create_registers_members_in_order_and_refuses_duplicates() {
    let mut config = base_config();
    assert!(create(&mut config, "duo", &["web", "api"], "/ws/duo/duo.code-workspace").is_ok());
    let entry = &config.workspaces[0].1;
    assert_eq!(entry.directory, "/ws/duo");
    assert!(matches!(&entry.members[0], WorkspaceMember::RegisteredRepo(alias) if alias == "web"));
    assert!(matches!(create(&mut config, "duo", &["api"], ""), Err(ReportalError::WorkspaceAlreadyRegistered { name }) if name == "duo"));
}

#[test]
fn members_are_added_once_and_removed_unless_last() {
    let mut config = base_config();
    assert!(create(&mut config, "duo", &["api"], "").is_ok());
    assert!(matches!(run_workspace_add_repo(&mut config, "w", "web"), Ok(name) if name == "duo"));
    assert!(matches!(
        run_workspace_add_repo(&mut config, "duo", "web"),
        Err(ReportalError::ValidationFailure { reason, .. }) if reason == "repo 'web' is already a member of workspace 'duo'"
    ));
    assert!(matches!(run_workspace_add_repo(&mut config, "duo", "ghost"), Err(ReportalError::RepoNotFound { .. })));
    assert!(run_workspace_remove_repo(&mut config, "duo", "api").is_ok());
    assert!(matches!(
        run_workspace_remove_repo(&mut config, "duo", "web"),
        Err(ReportalError::ValidationFailure { reason, .. })
            if reason == "removing 'web' would leave workspace 'duo' with zero members; delete the workspace instead"
    ));
    assert!(matches!(
        run_workspace_remove_repo(&mut config, "duo", "api"),
        Err(ReportalError::ValidationFailure { reason, .. }) if reason == "repo 'api' is not a member of workspace 'duo'"
    ));
    assert!(matches!(run_workspace_remove_repo(&mut config, "nope", "api"), Err(ReportalError::WorkspaceNotFound { .. })));
}

#[test]
fn remove_is_refused_for_workspace_members() {
    let mut config = base_config();
    assert!(create(&mut config, "alpha", &["api"], "").is_ok());
    assert!(create(&mut config, "beta", &["api"], "").is_ok());
    assert!(matches!(
        run_remove(&mut config, "api"),
        Err(ReportalError::RepoIsWorkspaceMember { alias, affected_workspaces }) if alias == "api" && affected_workspaces == "alpha, beta"
    ));
    let removed = run_remove(&mut config, "web").expect("web is free");
    assert_eq!(removed.path, "/src/web");
    assert!(matches!(run_remove(&mut config, "web"), Err(ReportalError::RepoNotFound { alias }) if alias == "web"));
}

#[test]
fn delete_returns_name_and_directory() {
    let mut config = base_config();
    assert!(create(&mut config, "duo", &["api"], "").is_ok());
    assert!(matches!(run_workspace_delete(&mut config, "w", &None), Err(ReportalError::ConfigIoFailure { .. })));
    assert_eq!(config.workspaces.len(), 1);
    let (name, directory) = run_workspace_delete(&mut config, "w", &Some("/h".to_owned())).expect("deleted");
    assert_eq!((name.as_str(), directory.as_str()), ("duo", "/h/.reportal/workspaces/duo"));
    assert!(config.workspaces.is_empty());
    assert!(matches!(run_workspace_delete(&mut config, "duo", &None), Err(ReportalError::WorkspaceNotFound { .. })));
}

#[test]
fn show_lists_member_targets_and_links() {
    let mut config = base_config();
    assert!(create(&mut config, "duo", &["api", "web"], "/ws/duo").is_ok());
    let report = run_workspace_show(&config, "duo", &Some("/h".to_owned())).expect("shown");
    assert_eq!(report.uppercase_name, "DUO");
    assert_eq!(report.file_path, "/ws/duo/duo.code-workspace");
    assert_eq!(report.aliases_joined, "w");
    assert!(!report.still_legacy);
    assert_eq!(report.members[0].target_path, "/h/api");
    assert_eq!(report.members[1].link_path, "/ws/duo/web");
    assert!(report.ending.is_none());
}

#[test]
fn show_lists_members_before_a_missing_repo_then_ends() {
    let mut config = base_config();
    let mut entry = WorkspaceEntry::of_members(vec![
        WorkspaceMember::RegisteredRepo("api".to_owned()),
        WorkspaceMember::RegisteredRepo("ghost".to_owned()),
        WorkspaceMember::RegisteredRepo("web".to_owned()),
    ]);
    entry.directory = "/ws/trio".to_owned();
    assert!(config.add_workspace("trio".to_owned(), entry).is_ok());
    let report = run_workspace_show(&config, "trio", &None).expect("shown");
    assert_eq!(report.members.len(), 1);
    assert_eq!(report.members[0].repo_alias, "api");
    assert!(matches!(report.ending, Some(ReportalError::RepoNotFound { alias }) if alias == "ghost"));
}

#[test]
fn list_entries_in_name_order() {
    let mut config = base_config();
    assert!(create(&mut config, "zeta", &["api"], "/ws/z").is_ok());
    let mut second = WorkspaceEntry::of_members(vec![WorkspaceMember::RegisteredRepo("web".to_owned())]);
    second.directory = "/ws/a".to_owned();
    assert!(config.add_workspace("alpha".to_owned(), second).is_ok());
    let entries = run_workspace_list(&config, &None);
    assert_eq!(entries.len(), 2);
    assert_eq!(entries[0].uppercase_name, "ALPHA");
    assert_eq!(entries[0].members_joined, "web");
    assert_eq!(entries[1].directory, Some("/ws/z".to_owned()));
    let labels = workspace_menu(&config).expect("menu");
    assert_eq!(labels[1], "▣▣ ZETA (w) — desc [workspace]");
    assert!(matches!(select_workspace(&config, Some(1)), Ok(name) if name == "zeta"));
}

#[test]
fn rebuild_moves_legacy_file_paths_to_default_root() {
    let mut config = base_config();
    let mut legacy = WorkspaceEntry::of_members(vec![WorkspaceMember::RegisteredRepo("api".to_owned())]);
    legacy.directory = "/old/place/duo.code-workspace".to_owned();
    assert!(config.add_workspace("duo".to_owned(), legacy).is_ok());
    assert!(matches!(run_workspace_rebuild(&mut config, "duo", &None), Err(ReportalError::ConfigIoFailure { .. })));
    assert!(matches!(run_workspace_rebuild(&mut config, "duo", &Some("/h".to_owned())), Ok((name, true)) if name == "duo"));
    assert_eq!(config.workspaces[0].1.directory, "/h/.reportal/workspaces/duo");
    assert!(matches!(run_workspace_rebuild(&mut config, "duo", &None), Ok((_, false))));
}

#[test]
fn create_refuses_empty_name_no_members_and_unknown_repos() {
    let mut config = base_config();
    assert!(matches!(create(&mut config, "", &["api"], ""), Err(ReportalError::ValidationFailure { field, .. }) if field == "workspace name"));
    assert!(matches!(create(&mut config, "solo", &[], ""), Err(ReportalError::ValidationFailure { field, .. }) if field == "workspace members"));
    assert!(matches!(create(&mut config, "solo", &["api", "ghost", "nope"], ""),
        Err(ReportalError::WorkspaceHasDanglingRepo { workspace, repo_alias }) if workspace == "solo" && repo_alias == "ghost"));
    assert!(config.workspaces.is_empty());
}
