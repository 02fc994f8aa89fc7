use reportal::config::{RepoEntry, ReportalConfig, TagFilter};
use reportal::repo_web::{run_web, WebCommandParams};
use reportal::repo_web::{
    browser_target_url, remote_from_git_output, remote_url_to_browser_url, RemoteResolution,
};
use reportal::error::ReportalError;

#[test]
fn converts_ssh_remote_to_https() {
    assert_eq!(
        remote_url_to_browser_url("git@github.com:org/repo.git"),
        "https://github.com/org/repo"
    );
}

#[test]
fn converts_ssh_scheme_remote_to_https() {
    assert_eq!(
        remote_url_to_browser_url("ssh://git@github.com/org/repo.git"),
        "https://github.com/org/repo"
    );
}

#[test]
fn passes_through_https_remote() {
    assert_eq!(
        remote_url_to_browser_url("https://github.com/org/repo.git"),
        "https://github.com/org/repo"
    );
}

#[test]
fn handles_https_without_git_suffix() {
    assert_eq!(
        remote_url_to_browser_url("https://github.com/org/repo"),
        "https://github.com/org/repo"
    );
}

#[test]
fn uppercase_git_suffix_is_dropped() {
    assert_eq!(
        remote_url_to_browser_url("https://example.org/team/tool.GIT"),
        "https://example.org/team/tool"
    );
}

#[test]
fn only_first_colon_of_scp_form_becomes_slash() {
    assert_eq!(
        remote_url_to_browser_url("git@host:8022:path/repo"),
        "https://host/8022:path/repo"
    );
}

#[test]
fn ssh_scheme_without_user_keeps_host() {
    assert_eq!(
        remote_url_to_browser_url("ssh://example.org/repo.git"),
        "https://example.org/repo"
    );
}

#[test]
fn git_output_is_trimmed_and_empty_output_is_no_remote() {
    match remote_from_git_output(true, "  https://a/b.git\n") {
        RemoteResolution::Resolved(url) => assert_eq!(url, "https://a/b.git"),
        RemoteResolution::NotFound => panic!("expected a remote"),
    }
    assert!(matches!(remote_from_git_output(true, " \n"), RemoteResolution::NotFound));
    assert!(matches!(
        remote_from_git_output(false, "https://a/b.git"),
        RemoteResolution::NotFound
    ));
}

#[test]
fn configured_remote_wins_and_missing_remote_errors() {
    let configured = browser_target_url("app", "git@h:o/r.git", RemoteResolution::NotFound);
    assert_eq!(configured.ok().unwrap(), "https://h/o/r");
    let detected = browser_target_url(
        "app",
        "",
        RemoteResolution::Resolved("https://d/x.git".to_owned()),
    );
    assert_eq!(detected.ok().unwrap(), "https://d/x");
    match browser_target_url("app", "", RemoteResolution::NotFound) {
        Err(ReportalError::NoRemoteUrl { alias }) => assert_eq!(alias, "app"),
        _ => panic!("expected NoRemoteUrl"),
    }
}

#[test]
fn web_plan_prefers_configured_remote() {
    let mut config = ReportalConfig::new("code".to_owned());
    let mut entry = RepoEntry::at_path("/r/app".to_owned());
    entry.remote = "git@github.com:org/app.git".to_owned();
    assert!(config.add_repo("app".to_owned(), entry).is_ok());
    assert!(config.add_repo("bare".to_owned(), RepoEntry::at_path("/r/bare".to_owned())).is_ok());
    let params = WebCommandParams { tag_filter: TagFilter::All, direct_alias: "app" };
    let plan = run_web(&params, &config, None, RemoteResolution::NotFound).ok().expect("plan");
    assert_eq!(plan.browser_url, "https://github.com/org/app");
    let bare = WebCommandParams { tag_filter: TagFilter::All, direct_alias: "bare" };
    let detected = run_web(&bare, &config, None, RemoteResolution::Resolved("ssh://git@host/x/y.git".to_owned()))
        .ok()
        .expect("plan");
    assert_eq!(detected.browser_url, "https://host/x/y");
    assert!(matches!(
        run_web(&bare, &config, None, RemoteResolution::NotFound),
        Err(ReportalError::NoRemoteUrl { alias }) if alias == "bare"
    ));
}

#[test]
fn browser_url_converts_to_itself() {
    for remote in ["git@github.com:org/repo.git", "ssh://git@github.com/org/repo.git", "https://github.com/org/repo"] {
        let once = remote_url_to_browser_url(remote);
        assert_eq!(once, "https://github.com/org/repo");
        assert_eq!(remote_url_to_browser_url(&once), once);
    }
    let doubled = remote_url_to_browser_url("https://host/x.git.git");
    assert_eq!(doubled, "https://host/x.git");
    assert_eq!(remote_url_to_browser_url(&doubled), "https://host/x");
}
