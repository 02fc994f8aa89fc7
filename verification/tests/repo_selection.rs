use reportal::config::{RepoEntry, ReportalConfig, TagFilter};
use reportal::error::ReportalError;
use reportal::repo_selection::{
    passes_filter, repo_label, repo_menu_labels, repo_menu_order, select_repo, SelectedRepoParams,
};

fn repo_with(path: &str, tags: &[&str], aliases: &[&str], description: &str) -> RepoEntry {
    let mut entry = RepoEntry::at_path(path.to_owned());
    entry.tags = tags.iter().map(|tag| (*tag).to_owned()).collect();
    entry.aliases = aliases.iter().map(|alias| (*alias).to_owned()).collect();
    entry.description = description.to_owned();
    entry
}

fn sample_config() -> ReportalConfig {
    let mut config = ReportalConfig::new("code".to_owned());
    for (alias, entry) in [
        ("zeta", repo_with("/r/zeta", &[], &[], "")),
        ("alpha", repo_with("/r/alpha", &["work"], &["a"], "first")),
        ("beta", repo_with("/r/beta", &["home"], &[], "")),
        ("gamma", repo_with("/r/gamma", &["work", "x"], &[], "")),
        ("delta", repo_with("/r/delta", &[], &["d", "dd"], "")),
    ] {
        assert!(config.add_repo(alias.to_owned(), entry).is_ok());
    }
    config
}

fn keys_of(config: &ReportalConfig, order: &[usize]) -> Vec<String> {
    order.iter().map(|index| config.repos[*index].0.clone()).collect()
}

#[test]
fn menu_groups_by_first_tag_then_alias() {
    let config = sample_config();
    let order = repo_menu_order(&config, &TagFilter::All);
    assert_eq!(keys_of(&config, &order), vec!["delta", "zeta", "beta", "alpha", "gamma"]);
}

#[test]
fn menu_keeps_only_tagged_repos_under_tag_filter() {
    let config = sample_config();
    let order = repo_menu_order(&config, &TagFilter::ByTag("work".to_owned()));
    assert_eq!(keys_of(&config, &order), vec!["alpha", "gamma"]);
    let everything = repo_menu_order(&config, &TagFilter::ByTag(String::new()));
    assert_eq!(everything.len(), 5);
}

#[test]
fn repo_label_lists_aliases_description_and_tags() {
    let entry = repo_with("/r/alpha", &["work", "rust"], &["a", "al"], "first repo");
    assert_eq!(repo_label("alpha", &entry), "alpha (a, al) — first repo [work, rust]");
    let bare = RepoEntry::at_path("/r/plain".to_owned());
    assert_eq!(repo_label("plain", &bare), "plain");
}

#[test]
fn menu_labels_follow_order() {
    let config = sample_config();
    let order = repo_menu_order(&config, &TagFilter::All);
    let labels = repo_menu_labels(&config, &order);
    assert_eq!(labels[0], "delta (d, dd)");
    assert_eq!(labels[3], "alpha (a) — first [work]");
}

#[test]
fn select_repo_by_direct_alias_and_declared_alias() {
    let config = sample_config();
    let filter = TagFilter::All;
    let params = SelectedRepoParams { loaded_config: &config, direct_alias: "dd", tag_filter: &filter, prompt_label: "Pick" };
    let selected = select_repo(&params, None).expect("declared alias resolves");
    assert_eq!(selected.repo_alias(), "dd");
    assert_eq!(selected.repo_config().path, "/r/delta");
    let missing = SelectedRepoParams { loaded_config: &config, direct_alias: "nope", tag_filter: &filter, prompt_label: "Pick" };
    assert!(matches!(select_repo(&missing, None), Err(ReportalError::RepoNotFound { alias }) if alias == "nope"));
}

#[test]
fn select_repo_from_menu_row() {
    let config = sample_config();
    let filter = TagFilter::All;
    let params = SelectedRepoParams { loaded_config: &config, direct_alias: "", tag_filter: &filter, prompt_label: "Pick" };
    let selected = select_repo(&params, Some(2)).expect("row 2 exists");
    assert_eq!(selected.repo_alias(), "beta");
    assert!(matches!(select_repo(&params, None), Err(ReportalError::SelectionCancelled)));
    assert!(matches!(select_repo(&params, Some(5)), Err(ReportalError::SelectionCancelled)));
}

#[test]
fn select_repo_with_empty_menu_reports_no_match() {
    let config = sample_config();
    let filter = TagFilter::ByTag("absent".to_owned());
    let params = SelectedRepoParams { loaded_config: &config, direct_alias: "", tag_filter: &filter, prompt_label: "Pick" };
    assert!(matches!(select_repo(&params, Some(0)), Err(ReportalError::NoReposMatchFilter)));
}

#[test]
fn passes_filter_checks_tags() {
    let entry = repo_with("/r", &["work"], &[], "");
    assert!(passes_filter(&entry, &TagFilter::All));
    assert!(passes_filter(&entry, &TagFilter::ByTag("work".to_owned())));
    assert!(!passes_filter(&entry, &TagFilter::ByTag("home".to_owned())));
    assert!(passes_filter(&entry, &TagFilter::ByTag(String::new())));
}
