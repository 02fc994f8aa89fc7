use reportal::config::{
    RepoEntry, ReportalConfig, TagFilter, WorkspaceEntry, WorkspaceFilter, WorkspaceMember,
};
use reportal::error::ReportalError;
use reportal::repo_tree_grouping::{RepoTreeGrouping, RepoTreeGroupingParams};

fn repo_at(path: &str, tags: &[&str]) -> RepoEntry {
    let mut entry = RepoEntry::at_path(path.to_owned());
    entry.tags = tags.iter().map(|tag| (*tag).to_owned()).collect();
    entry
}

fn workspace_of(members: &[&str]) -> WorkspaceEntry {
    WorkspaceEntry::of_members(
        members
            .iter()
            .map(|alias| WorkspaceMember::RegisteredRepo((*alias).to_owned()))
            .collect(),
    )
}

fn config_with(repos: Vec<(&str, RepoEntry)>, workspaces: Vec<(&str, WorkspaceEntry)>) -> ReportalConfig {
    let mut config = ReportalConfig::new("code".to_owned());
    for (alias, entry) in repos {
        assert!(config.add_repo(alias.to_owned(), entry).is_ok());
    }
    for (name, entry) in workspaces {
        assert!(config.add_workspace(name.to_owned(), entry).is_ok());
    }
    config
}

fn build_tree<'config>(
    test_config: &'config ReportalConfig,
    tag_filter: &'config TagFilter,
    workspace_filter: &'config WorkspaceFilter,
) -> Result<RepoTreeGrouping<'config>, ReportalError> {
    RepoTreeGrouping::build(&RepoTreeGroupingParams {
        loaded_config: test_config,
        tag_filter,
        workspace_filter,
    })
}

#[test]
fn unassigned_repo_lands_in_unassigned_section() {
    let test_config = config_with(vec![("lonely", repo_at("/tmp/lonely", &[]))], vec![]);
    let tag_filter = TagFilter::All;
    let workspace_filter = WorkspaceFilter::All;
    let tree_grouping = build_tree(&test_config, &tag_filter, &workspace_filter)
        .ok()
        .expect("build must succeed");
    assert_eq!(tree_grouping.unassigned_repos().len(), 1);
    assert_eq!(tree_grouping.unassigned_repos()[0].0, "lonely");
    assert!(tree_grouping.workspace_sections().is_empty());
    assert_eq!(tree_grouping.distinct_repo_count(), 1);
}

#[test]
fn multi_workspace_repo_renders_in_every_section() {
    let test_config = config_with(
        vec![("shared", repo_at("/tmp/shared", &[]))],
        vec![("frontend", workspace_of(&["shared"])), ("backend", workspace_of(&["shared"]))],
    );
    let tag_filter = TagFilter::All;
    let workspace_filter = WorkspaceFilter::All;
    let tree_grouping = build_tree(&test_config, &tag_filter, &workspace_filter)
        .ok()
        .expect("build must succeed");
    assert_eq!(
        tree_grouping.workspace_sections().len(),
        2,
        "repo should render under BOTH containing workspaces",
    );
    assert_eq!(
        tree_grouping.distinct_repo_count(),
        1,
        "distinct count must dedupe the multi-workspace repo",
    );
    assert!(
        tree_grouping.unassigned_repos().is_empty(),
        "a repo that IS in workspaces must not appear as unassigned",
    );
}

#[test]
fn workspace_filter_by_name_scopes_to_one_section() {
    let test_config = config_with(
        vec![("alpha", repo_at("/tmp/alpha", &[])), ("bravo", repo_at("/tmp/bravo", &[]))],
        vec![("frontend", workspace_of(&["alpha"])), ("backend", workspace_of(&["bravo"]))],
    );
    let tag_filter = TagFilter::All;
    let workspace_filter = WorkspaceFilter::ByName("frontend".to_owned());
    let tree_grouping = build_tree(&test_config, &tag_filter, &workspace_filter)
        .ok()
        .expect("build must succeed");
    assert_eq!(tree_grouping.workspace_sections().len(), 1);
    assert_eq!(tree_grouping.workspace_sections()[0].workspace_name(), "frontend");
    assert!(
        tree_grouping.unassigned_repos().is_empty(),
        "unassigned section must be suppressed when workspace filter is scoped",
    );
}

#[test]
fn workspace_filter_unknown_name_errors() {
    let test_config = config_with(vec![("alpha", repo_at("/tmp/alpha", &[]))], vec![]);
    let tag_filter = TagFilter::All;
    let workspace_filter = WorkspaceFilter::ByName("nonexistent".to_owned());
    let build_outcome = build_tree(&test_config, &tag_filter, &workspace_filter);
    assert!(
        matches!(build_outcome, Err(ReportalError::WorkspaceNotFound { .. })),
        "unknown workspace name must error loudly, not yield empty output",
    );
}

#[test]
fn tag_filter_restricts_members_within_workspaces() {
    let test_config = config_with(
        vec![("api", repo_at("/tmp/api", &["work"])), ("hobby", repo_at("/tmp/hobby", &["personal"]))],
        vec![("combined", workspace_of(&["api", "hobby"]))],
    );
    let tag_filter = TagFilter::ByTag("work".to_owned());
    let workspace_filter = WorkspaceFilter::All;
    let tree_grouping = build_tree(&test_config, &tag_filter, &workspace_filter)
        .ok()
        .expect("build must succeed");
    assert_eq!(tree_grouping.workspace_sections().len(), 1);
    assert_eq!(tree_grouping.workspace_sections()[0].member_repos().len(), 1);
    assert_eq!(tree_grouping.workspace_sections()[0].member_repos()[0].0, "api");
}

#[test]
fn workspace_with_no_surviving_members_is_omitted() {
    let test_config = config_with(
        vec![("personal_only", repo_at("/tmp/personal", &["personal"]))],
        vec![("personal_ws", workspace_of(&["personal_only"]))],
    );
    let tag_filter = TagFilter::ByTag("work".to_owned());
    let workspace_filter = WorkspaceFilter::All;
    let tree_grouping = build_tree(&test_config, &tag_filter, &workspace_filter)
        .ok()
        .expect("build must succeed");
    assert!(
        tree_grouping.workspace_sections().is_empty(),
        "workspaces with zero surviving members must be hidden",
    );
    assert!(
        tree_grouping.unassigned_repos().is_empty(),
        "the only repo was filtered out by tag",
    );
    assert!(tree_grouping.is_empty());
}

#[test]
fn member_order_matches_declared_order() {
    let test_config = config_with(
        vec![
            ("alpha", repo_at("/tmp/alpha", &[])),
            ("bravo", repo_at("/tmp/bravo", &[])),
            ("charlie", repo_at("/tmp/charlie", &[])),
        ],
        vec![("ordered", workspace_of(&["charlie", "alpha", "bravo"]))],
    );
    let tag_filter = TagFilter::All;
    let workspace_filter = WorkspaceFilter::All;
    let tree_grouping = build_tree(&test_config, &tag_filter, &workspace_filter)
        .ok()
        .expect("build must succeed");
    let observed_member_order: Vec<&str> = tree_grouping.workspace_sections()[0]
        .member_repos()
        .iter()
        .map(|(repo_alias, _repo_entry)| *repo_alias)
        .collect();
    assert_eq!(
        observed_member_order,
        vec!["charlie", "alpha", "bravo"],
        "sidebar ordering from declared `repos` field must round-trip into the tree",
    );
}

#[test]
fn tag_and_workspace_filters_intersect() {
    let test_config = config_with(
        vec![
            ("api", repo_at("/tmp/api", &["work"])),
            ("tool", repo_at("/tmp/tool", &["work"])),
            ("game", repo_at("/tmp/game", &["fun"])),
        ],
        vec![("backend", workspace_of(&["api", "tool"])), ("play", workspace_of(&["game"]))],
    );
    let tag_filter = TagFilter::ByTag("work".to_owned());
    let workspace_filter = WorkspaceFilter::ByName("backend".to_owned());
    let tree_grouping = build_tree(&test_config, &tag_filter, &workspace_filter)
        .ok()
        .expect("build must succeed");
    assert_eq!(tree_grouping.workspace_sections().len(), 1);
    assert_eq!(
        tree_grouping.workspace_sections()[0].member_repos().len(),
        2,
        "both backend members carry the work tag",
    );
    assert_eq!(tree_grouping.distinct_repo_count(), 2);
}

#[test]
fn unresolvable_member_is_reported() {
    let test_config = config_with(
        vec![("alpha", repo_at("/tmp/alpha", &[]))],
        vec![("broken", workspace_of(&["alpha", "ghost"]))],
    );
    let tag_filter = TagFilter::All;
    let workspace_filter = WorkspaceFilter::All;
    match build_tree(&test_config, &tag_filter, &workspace_filter) {
        Err(ReportalError::RepoNotFound { alias }) => assert_eq!(alias, "ghost"),
        _ => panic!("expected RepoNotFound"),
    }
}

#[test]
fn member_listed_by_declared_alias_counts_under_that_alias() {
    let mut aliased = repo_at("/tmp/alpha", &[]);
    aliased.aliases = vec!["a".to_owned()];
    let test_config = config_with(
        vec![("alpha", aliased)],
        vec![("ws", workspace_of(&["a"]))],
    );
    let tag_filter = TagFilter::All;
    let workspace_filter = WorkspaceFilter::All;
    let tree_grouping = build_tree(&test_config, &tag_filter, &workspace_filter)
        .ok()
        .expect("build must succeed");
    assert_eq!(tree_grouping.workspace_sections()[0].member_repos()[0].0, "a");
    assert_eq!(tree_grouping.unassigned_repos().len(), 1);
    assert_eq!(tree_grouping.distinct_repo_count(), 2);
}
