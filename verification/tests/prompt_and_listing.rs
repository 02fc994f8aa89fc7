use reportal::cli_args::PromptShell;
use reportal::config::{HexColor, RepoColor, RepoEntry, ReportalConfig, TabTitle, TagFilter, WorkspaceEntry, WorkspaceFilter, WorkspaceMember};
use reportal::error::ReportalError;
use reportal::home::{expand_tilde_with_home, resolve_default_workspace_root};
use reportal::path_display::{print_selected_path_if_visible, SelectedPathDisplayParams};
use reportal::config::PathVisibility;
use reportal::prompt_badge_emit::{run_prompt, NonPrintingEscapeWrapper};
use reportal::prompt_identity::{longest_prefix_match, PromptIdentityResolver};
use reportal::repo_listing::run_list;
use reportal::repo_listing_renderer::{ListingPart, PartKind};

fn colored_config() -> ReportalConfig {
    let mut config = ReportalConfig::new("code".to_owned());
    let mut app = RepoEntry::at_path("/src/app".to_owned());
    app.color = RepoColor::Themed(HexColor::parse("#0a141e").ok().expect("valid"));
    app.title = TabTitle::Custom("App".to_owned());
    assert!(config.add_repo("app".to_owned(), app).is_ok());
    config
}

#[test]
fn longest_prefix_wins_and_empty_never_matches() {
    let candidates = vec!["/src".to_owned(), "/src/app".to_owned(), "".to_owned(), "/src/app".to_owned()];
    assert_eq!(longest_prefix_match(&candidates, "/src/app/lib"), Some(1));
    assert_eq!(longest_prefix_match(&candidates, "/srcx"), None);
    assert_eq!(longest_prefix_match(&vec!["".to_owned()], "/"), None);
}

#[test]
fn badges_color_the_label_with_shell_markers() {
    let config = colored_config();
    let bash = run_prompt(PromptShell::Bash, &config, "/src/app/x", &None).expect("badge");
    assert_eq!(bash, Some("\\[\x1b[38;2;10;20;30m\\]App\\[\x1b[0m\\]".to_owned()));
    let zsh = run_prompt(PromptShell::Zsh, &config, "/src/app", &None).expect("badge");
    assert_eq!(zsh, Some("%{\x1b[38;2;10;20;30m%}App%{\x1b[0m%}".to_owned()));
    let elsewhere = run_prompt(PromptShell::Powershell, &config, "/tmp", &None).expect("no badge");
    assert_eq!(elsewhere, None);
}

#[test]
fn uncolored_identity_is_the_bare_label() {
    let mut config = ReportalConfig::new("code".to_owned());
    let mut workspace = WorkspaceEntry::of_members(vec![]);
    workspace.directory = "/ws/team".to_owned();
    assert!(config.add_workspace("team".to_owned(), workspace).is_ok());
    let badge = run_prompt(PromptShell::Bash, &config, "/ws/team", &None).expect("badge");
    assert_eq!(badge, Some("team".to_owned()));
    let resolver = PromptIdentityResolver::for_configuration(&config);
    let identity = resolver.resolve_from_directory("/ws/team/sub", &None).expect("ok").expect("matched");
    assert_eq!(identity.display_label, "team");
    assert!(identity.accent_color.is_none());
    let wrapper = NonPrintingEscapeWrapper::for_shell(PromptShell::Powershell);
    assert_eq!((wrapper.opening_marker, wrapper.closing_marker), ("", ""));
}

#[test]
fn default_workspace_without_home_is_an_error() {
    let mut config = colored_config();
    assert!(config.add_workspace("team".to_owned(), WorkspaceEntry::of_members(vec![])).is_ok());
    assert!(matches!(run_prompt(PromptShell::Bash, &config, "/src/app", &None), Err(ReportalError::ConfigIoFailure { .. })));
}

#[test]
fn tilde_expands_only_at_the_start() {
    let home = Some("/home/me".to_owned());
    assert_eq!(expand_tilde_with_home("~/dev", &home), "/home/me/dev");
    assert_eq!(expand_tilde_with_home("~", &home), "/home/me");
    assert_eq!(expand_tilde_with_home("~other/dev", &home), "~other/dev");
    assert_eq!(expand_tilde_with_home("/x/~", &home), "/x/~");
    assert_eq!(expand_tilde_with_home("~/dev", &None), "~/dev");
    assert_eq!(resolve_default_workspace_root(&home).expect("root"), "/home/me/.reportal/workspaces");
    assert!(matches!(resolve_default_workspace_root(&None), Err(ReportalError::ConfigIoFailure { .. })));
}

#[test]
fn selected_path_is_echoed_only_when_shown() {
    let mut config = ReportalConfig::new("code".to_owned());
    assert_eq!(print_selected_path_if_visible(&SelectedPathDisplayParams { loaded_config: &config, resolved_path: "/p" }), None);
    config.path_on_select = PathVisibility::Show;
    assert_eq!(print_selected_path_if_visible(&SelectedPathDisplayParams { loaded_config: &config, resolved_path: "/p" }), Some("/p".to_owned()));
}

fn listing_text(parts: &[ListingPart]) -> String {
    parts.iter().map(|part| match part.kind {
        PartKind::Swatch => format!("[{}]", part.text),
        PartKind::Found => "<found?>".to_owned(),
        _ => part.text.clone(),
    }).collect()
}

#[test]
fn listing_groups_sections_and_unassigned() {
    let mut config = colored_config();
    let mut web = RepoEntry::at_path("/src/web".to_owned());
    web.description = "Site".to_owned();
    web.tags = vec!["www".to_owned()];
    assert!(config.add_repo("web".to_owned(), web).is_ok());
    assert!(config.add_workspace("team".to_owned(), WorkspaceEntry::of_members(vec![WorkspaceMember::RegisteredRepo("web".to_owned())])).is_ok());
    let parts = run_list(&config, &TagFilter::All, &WorkspaceFilter::All, &None).expect("listing");
    let text = listing_text(&parts);
    assert!(text.starts_with("\n  RePortal\n\n  TEAM\n\n"));
    assert!(text.contains("     [] WEB\n        Path: /src/web\n        Desc: Site\n        Tags: www\n        Found: <found?>\n\n"));
    assert!(text.contains("  (unassigned)\n\n     [#0a141e] APP\n"));
    assert!(text.ends_with("  2 repos total\n\n"));
}

#[test]
fn empty_listing_explains_the_filter() {
    let config = ReportalConfig::new("code".to_owned());
    let parts = run_list(&config, &TagFilter::ByTag("x".to_owned()), &WorkspaceFilter::All, &None).expect("listing");
    assert_eq!(listing_text(&parts), "No repos found with tag 'x'\n");
}

#[test]
fn tilde_before_backslash_is_left_as_written() {
    let home = Some("/home/me".to_owned());
    assert_eq!(reportal::home::expand_tilde_with_home("~\\x", &home), "~\\x");
    assert_eq!(reportal::home::expand_tilde_with_home("~/x", &home), "/home/me/x");
    assert_eq!(reportal::home::expand_tilde_with_home("~", &home), "/home/me");
}
