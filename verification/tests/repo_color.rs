use reportal::color_command_mode::ColorCommandMode;
use reportal::config::{HexColor, RepoColor, RepoEntry, ReportalConfig, TabTitle, WorkspaceEntry, WorkspaceMember};
use reportal::error::ReportalError;
use reportal::repo_color::{self, ColorCommandOutput, ColorCommandParams};
use reportal::repository_color::{self, ColorCommandParameters};
use reportal::terminal_identity_emit::TabColorAction;

fn sample_config() -> ReportalConfig {
    let mut config = ReportalConfig::new("code".to_owned());
    let mut app = RepoEntry::at_path("/src/app".to_owned());
    app.color = RepoColor::Themed(HexColor::parse("#102030").ok().expect("valid"));
    assert!(config.add_repo("app".to_owned(), app).is_ok());
    let mut nested = RepoEntry::at_path("/src/app/plugins/core".to_owned());
    nested.title = TabTitle::Custom("Core".to_owned());
    assert!(config.add_repo("core".to_owned(), nested).is_ok());
    assert!(config.add_repo("app2".to_owned(), RepoEntry::at_path("/src/app-two".to_owned())).is_ok());
    config
}

fn painted_title(output: &ColorCommandOutput) -> Option<(String, bool)> {
    match output {
        ColorCommandOutput::Paint { identity, echo_title } => Some((identity.resolved_title.clone(), *echo_title)),
        _ => None,
    }
}

#[test]
fn working_directory_picks_the_longest_repository_path() {
    let config = sample_config();
    let params = ColorCommandParams { repo_alias: "", mode: ColorCommandMode::PromptHook };
    let output = repo_color::run_color(&params, &config, "/src/app/plugins/core/src", &None).expect("resolves");
    assert_eq!(painted_title(&output), Some(("Core".to_owned(), true)));
    let shallow = repo_color::run_color(&params, &config, "/src/app/docs", &None).expect("resolves");
    assert_eq!(painted_title(&shallow), Some(("app".to_owned(), true)));
}

#[test]
fn path_prefix_is_by_component() {
    let config = sample_config();
    let params = ColorCommandParams { repo_alias: "", mode: ColorCommandMode::Explicit };
    let output = repo_color::run_color(&params, &config, "/src/app-two/x", &None).expect("resolves");
    assert_eq!(painted_title(&output), Some(("app2".to_owned(), false)));
}

#[test]
fn no_match_resets_explicitly_and_is_silent_for_the_prompt_hook() {
    let config = sample_config();
    let explicit = ColorCommandParams { repo_alias: "", mode: ColorCommandMode::Explicit };
    assert!(matches!(repo_color::run_color(&explicit, &config, "/elsewhere", &None), Ok(ColorCommandOutput::ResetTabColor)));
    let hook = ColorCommandParams { repo_alias: "", mode: ColorCommandMode::PromptHook };
    assert!(matches!(repo_color::run_color(&hook, &config, "/elsewhere", &None), Ok(ColorCommandOutput::LeaveUnchanged)));
}

#[test]
fn direct_alias_paints_that_repository() {
    let config = sample_config();
    let params = ColorCommandParams { repo_alias: "app", mode: ColorCommandMode::Explicit };
    match repo_color::run_color(&params, &config, "/anywhere", &None) {
        Ok(ColorCommandOutput::Paint { identity, echo_title }) => {
            assert_eq!(identity.resolved_title, "app");
            assert!(!echo_title);
            assert!(matches!(identity.tab_color_action, TabColorAction::SetColor(hex) if hex.raw_value() == "#102030"));
        },
        _ => panic!("expected a paint"),
    }
    let missing = ColorCommandParams { repo_alias: "nope", mode: ColorCommandMode::Explicit };
    assert!(matches!(repo_color::run_color(&missing, &config, "/", &None), Err(ReportalError::RepoNotFound { .. })));
}

#[test]
fn workspace_directory_wins_over_repository_path() {
    let mut config = sample_config();
    let mut workspace = WorkspaceEntry::of_members(vec![WorkspaceMember::RegisteredRepo("app".to_owned())]);
    workspace.directory = "/src/app".to_owned();
    workspace.title = TabTitle::Custom("Venoble".to_owned());
    assert!(config.add_workspace("venoble".to_owned(), workspace).is_ok());
    let params = ColorCommandParameters { repository_alias: "", mode: ColorCommandMode::PromptHook };
    let output = repository_color::run_color(&params, &config, "/src/app/docs", &None).expect("resolves");
    assert_eq!(painted_title(&output), Some(("Venoble".to_owned(), true)));
}

#[test]
fn default_workspace_directory_needs_a_home() {
    let mut config = sample_config();
    assert!(config.add_workspace("venoble".to_owned(), WorkspaceEntry::of_members(vec![])).is_ok());
    let params = ColorCommandParameters { repository_alias: "", mode: ColorCommandMode::Explicit };
    assert!(matches!(
        repository_color::run_color(&params, &config, "/src/app", &None),
        Err(ReportalError::ConfigIoFailure { .. })
    ));
    let output = repository_color::run_color(&params, &config, "/home/me/.reportal/workspaces/venoble", &Some("/home/me".to_owned()))
        .expect("resolves");
    assert_eq!(painted_title(&output), Some(("venoble".to_owned(), false)));
}
