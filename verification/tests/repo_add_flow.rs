use reportal::config::{RepoEntry, ReportalConfig};
use reportal::error::ReportalError;
use reportal::prompts::ColorPromptResult;
use reportal::repo_add::{GitRemoteDetection, ProcessRun, RegistrationAnswers};
use reportal::repo_add_flow::{advance_add, run_add, AddAction, AddEvent, AddState};

fn answers_for(alias: &str) -> RegistrationAnswers {
    RegistrationAnswers {
        alias: alias.to_owned(),
        description: String::new(),
        tags_input: "tools".to_owned(),
        remote: "git@host:me/tool.git".to_owned(),
        tab_title: String::new(),
        color: ColorPromptResult::Skipped,
    }
}

fn registry_with(alias: &str, path: &str) -> ReportalConfig {
    let mut config = ReportalConfig::new("code".to_owned());
    assert!(config.add_repo(alias.to_owned(), RepoEntry::at_path(path.to_owned())).is_ok());
    config
}

#[test]
fn local_directory_is_looked_up_then_described_then_registered() {
    let mut config = ReportalConfig::new("code".to_owned());
    let home = Some("/home/me".to_owned());
    let (state, action) = run_add("/src/tool", &config, &home);
    assert!(matches!(&action, AddAction::DetectRemote { directory } if directory == "/src/tool"));
    let (state, action) = advance_add(
        state,
        AddEvent::RemoteDetected(GitRemoteDetection::Found("git@host:me/tool.git".to_owned())),
        &mut config,
        &home,
    );
    assert!(matches!(&action, AddAction::AskMetadata { path, suggested_alias, detected_remote }
        if path == "/src/tool" && suggested_alias == "tool" && detected_remote == "git@host:me/tool.git"));
    let (state, action) = advance_add(state, AddEvent::Answered(answers_for("tool")), &mut config, &home);
    assert!(matches!(state, AddState::Finished));
    assert!(matches!(&action, AddAction::Registered { alias } if alias == "tool"));
    assert_eq!(config.repos.len(), 1);
    assert_eq!(config.repos[0].1.path, "/src/tool");
    assert_eq!(config.repos[0].1.tags, vec!["tools".to_owned()]);
}

#[test]
fn local_directory_without_origin_prefills_no_remote() {
    let mut config = ReportalConfig::new("code".to_owned());
    let (state, _action) = run_add("/src/tool", &config, &None);
    let (_state, action) =
        advance_add(state, AddEvent::RemoteDetected(GitRemoteDetection::NoOriginConfigured), &mut config, &None);
    assert!(matches!(&action, AddAction::AskMetadata { detected_remote, .. } if detected_remote.is_empty()));
}

#[test]
fn url_is_cloned_beside_a_registered_repo() {
    let mut config = registry_with("app", "/src/app");
    let home = None;
    let (state, action) = run_add("git@github.com:me/tool.git", &config, &home);
    assert!(matches!(&action, AddAction::AskPlacement { source_url, labels }
        if source_url == "git@github.com:me/tool.git"
            && *labels == vec!["Custom path".to_owned(), "Sibling of existing repo".to_owned(), "Child of existing repo".to_owned()]));
    let (state, action) = advance_add(state, AddEvent::PlacementPicked(Some(1)), &mut config, &home);
    assert!(matches!(&action, AddAction::AskDirectory { prompt, labels }
        if prompt == "Sibling of which repo?" && *labels == vec!["app (/src)".to_owned()]));
    let (state, action) = advance_add(state, AddEvent::DirectoryPicked(Some(0)), &mut config, &home);
    assert!(matches!(&action, AddAction::Clone { git_url, target_directory }
        if git_url == "git@github.com:me/tool.git" && target_directory == "/src"));
    let (state, action) = advance_add(
        state,
        AddEvent::CloneRan(ProcessRun::Exited { success: true, status_text: "exit status: 0".to_owned() }),
        &mut config,
        &home,
    );
    assert!(matches!(&action, AddAction::AskMetadata { path, suggested_alias, detected_remote }
        if path == "/src/tool" && suggested_alias == "tool" && detected_remote == "git@github.com:me/tool.git"));
    let (_state, action) = advance_add(state, AddEvent::Answered(answers_for("tool")), &mut config, &home);
    assert!(matches!(&action, AddAction::Registered { alias } if alias == "tool"));
    assert_eq!(config.repos[1].0, "tool");
    assert_eq!(config.repos[1].1.path, "/src/tool");
}

#[test]
fn url_is_cloned_inside_a_registered_repo() {
    let mut config = registry_with("app", "~/src/app");
    let home = Some("/home/me".to_owned());
    let (state, _action) = run_add("https://host/me/plugin", &config, &home);
    let (state, action) = advance_add(state, AddEvent::PlacementPicked(Some(2)), &mut config, &home);
    assert!(matches!(&action, AddAction::AskDirectory { prompt, labels }
        if prompt == "Child of which repo?" && *labels == vec!["app (/home/me/src/app)".to_owned()]));
    let (_state, action) = advance_add(state, AddEvent::DirectoryPicked(Some(0)), &mut config, &home);
    assert!(matches!(&action, AddAction::Clone { target_directory, .. } if target_directory == "/home/me/src/app"));
}

#[test]
fn custom_clone_directory_expands_tilde() {
    let mut config = ReportalConfig::new("code".to_owned());
    let home = Some("/home/me".to_owned());
    let (state, action) = run_add("https://host/me/plugin.git", &config, &home);
    assert!(matches!(&action, AddAction::AskPlacement { labels, .. } if *labels == vec!["Custom path".to_owned()]));
    let (state, action) = advance_add(state, AddEvent::PlacementPicked(Some(0)), &mut config, &home);
    assert!(matches!(action, AddAction::AskCloneDirectory));
    let (_state, action) = advance_add(state, AddEvent::DirectoryTyped("~/forks".to_owned()), &mut config, &home);
    assert!(matches!(&action, AddAction::Clone { git_url, target_directory }
        if git_url == "https://host/me/plugin.git" && target_directory == "/home/me/forks"));
}

#[test]
fn dismissed_menus_cancel() {
    let mut config = registry_with("app", "/src/app");
    let (state, _action) = run_add("ssh://host/me/tool", &config, &None);
    let (state, action) = advance_add(state, AddEvent::PlacementPicked(None), &mut config, &None);
    assert!(matches!(state, AddState::Finished));
    assert!(matches!(action, AddAction::Fail(ReportalError::SelectionCancelled)));
    let (state, _action) = run_add("ssh://host/me/tool", &config, &None);
    let (state, _action) = advance_add(state, AddEvent::PlacementPicked(Some(1)), &mut config, &None);
    let (_state, action) = advance_add(state, AddEvent::DirectoryPicked(Some(5)), &mut config, &None);
    assert!(matches!(action, AddAction::Fail(ReportalError::SelectionCancelled)));
}

#[test]
fn failed_clone_or_directory_stops_the_add() {
    let mut config = ReportalConfig::new("code".to_owned());
    let (state, _action) = run_add("https://host/me/tool", &config, &None);
    let (state, _action) = advance_add(state, AddEvent::PlacementPicked(Some(0)), &mut config, &None);
    let (state, _action) = advance_add(state, AddEvent::DirectoryTyped("/tmp/x".to_owned()), &mut config, &None);
    let (_state, action) = advance_add(
        state,
        AddEvent::CloneRan(ProcessRun::Exited { success: false, status_text: "exit status: 128".to_owned() }),
        &mut config,
        &None,
    );
    assert!(matches!(action, AddAction::Fail(ReportalError::ConfigIoFailure { reason })
        if reason == "git clone exited with status exit status: 128"));
    let (state, _action) = run_add("https://host/me/tool", &config, &None);
    let (state, _action) = advance_add(state, AddEvent::PlacementPicked(Some(0)), &mut config, &None);
    let (state, _action) = advance_add(state, AddEvent::DirectoryTyped("/tmp/x".to_owned()), &mut config, &None);
    let (_state, action) = advance_add(state, AddEvent::DirectoryFailed("permission denied".to_owned()), &mut config, &None);
    assert!(matches!(action, AddAction::Fail(ReportalError::ConfigIoFailure { reason }) if reason == "permission denied"));
    assert!(config.repos.is_empty());
}

#[test]
fn taken_alias_is_refused_and_registry_unchanged() {
    let mut config = registry_with("tool", "/src/old");
    let (state, _action) = run_add("/src/tool", &config, &None);
    let (state, _action) =
        advance_add(state, AddEvent::RemoteDetected(GitRemoteDetection::GitUnavailable), &mut config, &None);
    let (_state, action) = advance_add(state, AddEvent::Answered(answers_for("tool")), &mut config, &None);
    assert!(matches!(action, AddAction::Fail(ReportalError::RepoAlreadyRegistered { alias }) if alias == "tool"));
    assert_eq!(config.repos.len(), 1);
    assert_eq!(config.repos[0].1.path, "/src/old");
}
