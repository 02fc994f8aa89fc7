use reportal::config::{RepoEntry, ReportalConfig, TabTitle};
use reportal::error::ReportalError;
use reportal::prompts::ColorPromptResult;
use reportal::repo_add::{
    classify_add_source, clone_placement_labels, cloned_repo_path, collect_registered_parent_directories,
    collect_registered_repo_directories, destination_from_choice, detected_remote_text, directory_choice_labels,
    placement_kind_from_choice, remote_detection_from_git_run, repo_name_from_git_url, suggest_alias_from_path,
    suggested_alias_text, AddSource, AliasSuggestion, CloneDestination, GitCloneOperation, GitRemoteDetection,
    PlacementKind, ProcessRun, RegistrationAnswers, RegistrationContext,
};

#[test]
fn git_urls_are_recognised() {
    assert!(matches!(classify_add_source("https://github.com/o/r"), AddSource::GitUrl(url) if url == "https://github.com/o/r"));
    assert!(matches!(classify_add_source("git@github.com:o/r.git"), AddSource::GitUrl(_)));
    assert!(matches!(classify_add_source("ssh://git@host/o/r"), AddSource::GitUrl(_)));
    assert!(matches!(classify_add_source("/srv/mirror/r.git"), AddSource::GitUrl(_)));
    assert!(matches!(classify_add_source("~/dev/project"), AddSource::LocalPath(path) if path == "~/dev/project"));
}

#[test]
fn alias_from_path_is_its_final_component() {
    assert!(matches!(suggest_alias_from_path("/home/me/project"), AliasSuggestion::Inferred(name) if name == "project"));
    assert!(matches!(suggest_alias_from_path("/home/me/project/"), AliasSuggestion::Inferred(name) if name == "project"));
    assert!(matches!(suggest_alias_from_path("/"), AliasSuggestion::NoSuggestion));
    assert!(matches!(suggest_alias_from_path("work/.."), AliasSuggestion::NoSuggestion));
}

#[test]
fn repo_name_from_url_drops_git_suffix() {
    assert!(matches!(repo_name_from_git_url("git@github.com:org/repo.git"), AliasSuggestion::Inferred(name) if name == "repo"));
    assert!(matches!(repo_name_from_git_url("https://github.com/org/tool"), AliasSuggestion::Inferred(name) if name == "tool"));
    assert!(matches!(repo_name_from_git_url("https://host/org/"), AliasSuggestion::NoSuggestion));
    assert_eq!(suggested_alias_text(repo_name_from_git_url("https://host/org/")), "");
}

fn three_repos() -> ReportalConfig {
    let mut config = ReportalConfig::new("code".to_owned());
    for (alias, path) in [("a", "/src/a"), ("b", "/src/b"), ("c", "~/other/c")] {
        assert!(config.add_repo(alias.to_owned(), RepoEntry::at_path(path.to_owned())).is_ok());
    }
    config
}

#[test]
fn parent_directories_are_listed_once() {
    let config = three_repos();
    let home = Some("/home/me".to_owned());
    let parents = collect_registered_parent_directories(&config, &home);
    let views: Vec<(String, String)> = parents.iter().map(|(alias, path)| ((*alias).to_owned(), path.clone())).collect();
    assert_eq!(views, vec![("a".to_owned(), "/src".to_owned()), ("c".to_owned(), "/home/me/other".to_owned())]);
    let repos = collect_registered_repo_directories(&config, &home);
    assert_eq!(repos.len(), 3);
    assert_eq!(repos[2].1, "/home/me/other/c");
    assert_eq!(directory_choice_labels(&parents), vec!["a (/src)".to_owned(), "c (/home/me/other)".to_owned()]);
}

#[test]
fn placement_menu_offers_only_available_kinds() {
    assert_eq!(clone_placement_labels(false, false), vec!["Custom path".to_owned()]);
    assert_eq!(
        clone_placement_labels(true, true),
        vec!["Custom path".to_owned(), "Sibling of existing repo".to_owned(), "Child of existing repo".to_owned()]
    );
    assert!(matches!(placement_kind_from_choice(false, true, Some(1)), Ok(PlacementKind::Child)));
    assert!(matches!(placement_kind_from_choice(true, true, Some(1)), Ok(PlacementKind::Sibling)));
    assert!(matches!(placement_kind_from_choice(true, true, Some(0)), Ok(PlacementKind::Custom)));
    assert!(matches!(placement_kind_from_choice(true, false, Some(2)), Err(ReportalError::SelectionCancelled)));
    assert!(matches!(placement_kind_from_choice(true, false, None), Err(ReportalError::SelectionCancelled)));
}

#[test]
fn destination_uses_the_chosen_directory() {
    let config = three_repos();
    let parents = collect_registered_parent_directories(&config, &None);
    assert!(matches!(destination_from_choice(PlacementKind::Sibling, &parents, Some(0)), Ok(CloneDestination::SiblingOf(path)) if path == "/src"));
    assert!(matches!(destination_from_choice(PlacementKind::Child, &parents, Some(9)), Err(ReportalError::SelectionCancelled)));
    assert!(matches!(destination_from_choice(PlacementKind::Custom, &parents, None), Ok(CloneDestination::CustomPath)));
    assert_eq!(cloned_repo_path("/src", "app"), "/src/app");
}

#[test]
fn clone_outcomes_name_the_failure() {
    let operation = GitCloneOperation { git_url: "https://h/o/r", target_directory: "/src" };
    assert!(operation.clone_outcome(ProcessRun::Exited { success: true, status_text: "0".to_owned() }).is_ok());
    assert!(matches!(
        operation.clone_outcome(ProcessRun::Exited { success: false, status_text: "exit status: 128".to_owned() }),
        Err(ReportalError::ConfigIoFailure { reason }) if reason == "git clone exited with status exit status: 128"
    ));
    assert!(matches!(
        operation.clone_outcome(ProcessRun::SpawnFailed("not found".to_owned())),
        Err(ReportalError::ConfigIoFailure { reason }) if reason == "Failed to run git: not found"
    ));
}

#[test]
fn remote_detection_reads_git_output() {
    assert!(matches!(remote_detection_from_git_run(true, true, "  git@h:o/r.git\n"), GitRemoteDetection::Found(url) if url == "git@h:o/r.git"));
    assert!(matches!(remote_detection_from_git_run(true, false, "x"), GitRemoteDetection::NoOriginConfigured));
    assert!(matches!(remote_detection_from_git_run(true, true, "  \n"), GitRemoteDetection::NoOriginConfigured));
    assert!(matches!(remote_detection_from_git_run(false, false, ""), GitRemoteDetection::GitUnavailable));
    assert_eq!(detected_remote_text(GitRemoteDetection::GitUnavailable), "");
}

#[test]
fn registration_records_the_answers() {
    let mut config = ReportalConfig::new("code".to_owned());
    let context = RegistrationContext {
        filesystem_path: "/src/app",
        suggested_alias: "app".to_owned(),
        detected_remote: String::new(),
    };
    let answers = RegistrationAnswers {
        alias: "app".to_owned(),
        description: "Main app".to_owned(),
        tags_input: "work, rust".to_owned(),
        remote: "git@h:o/app.git".to_owned(),
        tab_title: "App".to_owned(),
        color: ColorPromptResult::Skipped,
    };
    assert!(context.register_answers(&mut config, answers).is_ok());
    let entry = &config.repos[0].1;
    assert_eq!(entry.path, "/src/app");
    assert_eq!(entry.tags, vec!["work".to_owned(), "rust".to_owned()]);
    assert!(matches!(&entry.title, TabTitle::Custom(title) if title == "App"));
    let again = RegistrationAnswers {
        alias: "app".to_owned(),
        description: String::new(),
        tags_input: String::new(),
        remote: String::new(),
        tab_title: String::new(),
        color: ColorPromptResult::Skipped,
    };
    assert!(matches!(context.register_answers(&mut config, again), Err(ReportalError::RepoAlreadyRegistered { alias }) if alias == "app"));
}

#[test]
fn removing_an_added_repo_restores_the_registry() {
    let mut config = three_repos();
    let before: Vec<(String, String)> = config.repos.iter().map(|(alias, entry)| (alias.clone(), entry.path.clone())).collect();
    assert!(config.add_repo("b2".to_owned(), RepoEntry::at_path("/src/b2".to_owned())).is_ok());
    assert_eq!(config.repos[2].0, "b2");
    assert!(config.remove_repo("b2").is_ok());
    let after: Vec<(String, String)> = config.repos.iter().map(|(alias, entry)| (alias.clone(), entry.path.clone())).collect();
    assert_eq!(after, before);
}

#[test]
fn repo_name_from_short_scp_url_drops_the_host() {
    assert!(matches!(repo_name_from_git_url("git@github.com:myrepo.git"), AliasSuggestion::Inferred(name) if name == "myrepo"));
    assert!(matches!(repo_name_from_git_url("ssh://git@host:22/team/tool"), AliasSuggestion::Inferred(name) if name == "tool"));
}

#[test]
fn registration_leaves_settings_and_workspaces_alone() {
    let mut config = three_repos();
    config.default_ai_tool = "pilot".to_owned();
    let context = RegistrationContext { filesystem_path: "/src/new", suggested_alias: String::new(), detected_remote: String::new() };
    let answers = RegistrationAnswers {
        alias: "new".to_owned(),
        description: String::new(),
        tags_input: String::new(),
        remote: String::new(),
        tab_title: String::new(),
        color: ColorPromptResult::Skipped,
    };
    assert!(context.register_answers(&mut config, answers).is_ok());
    assert_eq!(config.repos.len(), 4);
    assert_eq!(config.default_ai_tool, "pilot");
    assert_eq!(config.default_editor, "code");
    assert!(config.workspaces.is_empty());
}
