use reportal::config::{PathVisibility, RepoEntry, ReportalConfig, TagFilter, WorkspaceEntry, WorkspaceMember};
use reportal::error::ReportalError;
use reportal::repo_jump::{run_jump, JumpCommandParameters, JumpOutcome};
use reportal::repo_open::{run_open, OpenCommandParams, OpenOutcome};

fn sample_config() -> ReportalConfig {
    let mut config = ReportalConfig::new("code".to_owned());
    let mut app = RepoEntry::at_path("~/dev/app".to_owned());
    app.aliases = vec!["a".to_owned()];
    assert!(config.add_repo("app".to_owned(), app).is_ok());
    let mut workspace = WorkspaceEntry::of_members(vec![WorkspaceMember::RegisteredRepo("app".to_owned())]);
    workspace.aliases = vec!["vn".to_owned()];
    assert!(config.add_workspace("venoble".to_owned(), workspace).is_ok());
    config
}

fn home() -> Option<String> {
    Some("/home/me".to_owned())
}

#[test]
fn jump_by_alias_prints_expanded_path() {
    let config = sample_config();
    let params = JumpCommandParameters { tag_filter: TagFilter::All, direct_alias: "a", title_override: "" };
    match run_jump(&params, &config, &home(), None) {
        Ok(JumpOutcome::Repo { printed_path, identity, echoed_path }) => {
            assert_eq!(printed_path, "/home/me/dev/app");
            assert_eq!(identity.resolved_title, "a");
            assert!(echoed_path.is_none());
        },
        _ => panic!("expected a repository jump"),
    }
}

#[test]
fn jump_echoes_path_when_configured() {
    let mut config = sample_config();
    config.path_on_select = PathVisibility::Show;
    let params = JumpCommandParameters { tag_filter: TagFilter::All, direct_alias: "app", title_override: "T" };
    match run_jump(&params, &config, &home(), None) {
        Ok(JumpOutcome::Repo { identity, echoed_path, .. }) => {
            assert_eq!(identity.resolved_title, "T");
            assert_eq!(echoed_path, Some("/home/me/dev/app".to_owned()));
        },
        _ => panic!("expected a repository jump"),
    }
}

#[test]
fn jump_to_workspace_alias_lands_in_its_directory() {
    let config = sample_config();
    let params = JumpCommandParameters { tag_filter: TagFilter::All, direct_alias: "vn", title_override: "" };
    match run_jump(&params, &config, &home(), None) {
        Ok(JumpOutcome::Workspace(jump)) => assert_eq!(jump.printed_path, "/home/me/.reportal/workspaces/venoble"),
        _ => panic!("expected a workspace jump"),
    }
}

#[test]
fn jump_to_unknown_name_is_repo_not_found() {
    let config = sample_config();
    let params = JumpCommandParameters { tag_filter: TagFilter::All, direct_alias: "zzz", title_override: "" };
    assert!(matches!(run_jump(&params, &config, &home(), None), Err(ReportalError::RepoNotFound { alias }) if alias == "zzz"));
}

#[test]
fn jump_menu_rows_cover_repos_then_workspaces() {
    let config = sample_config();
    let params = JumpCommandParameters { tag_filter: TagFilter::All, direct_alias: "", title_override: "" };
    assert!(matches!(run_jump(&params, &config, &home(), Some(0)), Ok(JumpOutcome::Repo { .. })));
    assert!(matches!(run_jump(&params, &config, &home(), Some(1)), Ok(JumpOutcome::Workspace { .. })));
    assert!(matches!(run_jump(&params, &config, &home(), Some(2)), Err(ReportalError::SelectionCancelled)));
}

#[test]
fn open_uses_override_editor_or_default() {
    let config = sample_config();
    let params = OpenCommandParams { tag_filter: TagFilter::All, direct_alias: "app", editor_override: "vim", title_override: "" };
    match run_open(&params, &config, &home(), None) {
        Ok(OpenOutcome::Repo { repo_path, editor_command, .. }) => {
            assert_eq!(repo_path, "/home/me/dev/app");
            assert_eq!(editor_command, "vim");
        },
        _ => panic!("expected a repository open"),
    }
    let default_editor = OpenCommandParams { tag_filter: TagFilter::All, direct_alias: "app", editor_override: "", title_override: "" };
    assert!(matches!(run_open(&default_editor, &config, &home(), None), Ok(OpenOutcome::Repo { editor_command, .. }) if editor_command == "code"));
}

#[test]
fn open_workspace_plans_its_layout() {
    let config = sample_config();
    let params = OpenCommandParams { tag_filter: TagFilter::All, direct_alias: "venoble", editor_override: "", title_override: "" };
    match run_open(&params, &config, &home(), None) {
        Ok(OpenOutcome::Workspace(plan)) => {
            assert_eq!(plan.canonical_name, "venoble");
            assert_eq!(plan.editor_command, "code");
            assert_eq!(plan.layout.workspace_file_path, "/home/me/.reportal/workspaces/venoble/venoble.code-workspace");
            assert_eq!(
                plan.layout.member_links,
                vec![("/home/me/.reportal/workspaces/venoble/app".to_owned(), "/home/me/dev/app".to_owned())]
            );
        },
        _ => panic!("expected a workspace open"),
    }
}

#[test]
fn open_menu_lists_only_repositories() {
    let config = sample_config();
    let params = OpenCommandParams { tag_filter: TagFilter::All, direct_alias: "", editor_override: "", title_override: "" };
    assert!(matches!(run_open(&params, &config, &home(), Some(0)), Ok(OpenOutcome::Repo { .. })));
    assert!(matches!(run_open(&params, &config, &home(), Some(1)), Err(ReportalError::SelectionCancelled)));
    assert!(matches!(run_open(&params, &config, &home(), None), Err(ReportalError::SelectionCancelled)));
}
