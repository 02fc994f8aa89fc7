use reportal::config::{RepoEntry, ReportalConfig, TagFilter};
use reportal::error::ReportalError;
use reportal::git_commands::{interpret_git_run, GitCommandOutcome};
use reportal::repo_status::{
    collect_repo_status, format_upstream_delta, parse_rev_list_counts, parse_usize, read_branch_name,
    read_last_commit_age, read_upstream_delta, read_working_tree_state, repo_count_text, status_report,
    status_targets, AheadBehindCounts, GitReports, RepoPresence, RevListParse, StatusLabels, UpstreamDelta, UsizeParse,
    WorkingTreeState,
};
use reportal::repo_sync::{
    check_pull_readiness, print_sync_result, pull_repo, run_sync, sync_single_repo, PullReadiness, PullRun,
    RepoSyncResult, SyncAction, SyncOutcome,
};

fn output(text: &str) -> GitCommandOutcome {
    GitCommandOutcome::Output(text.to_owned())
}

#[test]
fn git_runs_are_interpreted() {
    assert!(matches!(interpret_git_run(true, true, " main\n"), GitCommandOutcome::Output(text) if text == "main"));
    assert!(matches!(interpret_git_run(true, false, "x"), GitCommandOutcome::NonZeroExit));
    assert!(matches!(interpret_git_run(false, false, ""), GitCommandOutcome::SpawnFailed));
}

#[test]
fn numbers_parse_like_usize_parse() {
    assert!(matches!(parse_usize("42"), UsizeParse::Valid(42)));
    assert!(matches!(parse_usize("+7"), UsizeParse::Valid(7)));
    assert!(matches!(parse_usize(""), UsizeParse::Invalid));
    assert!(matches!(parse_usize("-1"), UsizeParse::Invalid));
    assert!(matches!(parse_usize("99999999999999999999999"), UsizeParse::Invalid));
    assert!(matches!(parse_rev_list_counts("3\t1"), RevListParse::Parsed(AheadBehindCounts { ahead: 3, behind: 1 })));
    assert!(matches!(parse_rev_list_counts("3 1"), RevListParse::Malformed));
}

#[test]
fn git_reports_become_status_fields() {
    assert_eq!(read_branch_name(output("feature")), "feature");
    assert_eq!(read_branch_name(output("HEAD")), "detached");
    assert_eq!(read_branch_name(GitCommandOutcome::NonZeroExit), "unknown");
    assert_eq!(read_branch_name(GitCommandOutcome::SpawnFailed), "no-git");
    assert!(read_working_tree_state(&output("")) == WorkingTreeState::Clean);
    assert!(read_working_tree_state(&output(" M file")) == WorkingTreeState::Dirty);
    assert!(read_working_tree_state(&GitCommandOutcome::NonZeroExit) == WorkingTreeState::Dirty);
    assert!(read_upstream_delta(&output("0\t2")) == UpstreamDelta::Counted(AheadBehindCounts { ahead: 0, behind: 2 }));
    assert!(read_upstream_delta(&GitCommandOutcome::NonZeroExit) == UpstreamDelta::NoUpstream);
    assert_eq!(read_last_commit_age(output("2 days ago")), "2 days ago");
    assert_eq!(read_last_commit_age(GitCommandOutcome::NonZeroExit), "no commits");
}

#[test]
fn upstream_delta_formats_arrows() {
    assert_eq!(format_upstream_delta(&UpstreamDelta::Counted(AheadBehindCounts { ahead: 0, behind: 0 })), "synced");
    assert_eq!(format_upstream_delta(&UpstreamDelta::Counted(AheadBehindCounts { ahead: 2, behind: 0 })), "2↑");
    assert_eq!(format_upstream_delta(&UpstreamDelta::Counted(AheadBehindCounts { ahead: 2, behind: 13 })), "2↑ 13↓");
    assert_eq!(format_upstream_delta(&UpstreamDelta::NoUpstream), "no upstream");
    assert_eq!(repo_count_text(1), "1 repo");
    assert_eq!(repo_count_text(12), "12 repos");
}

#[test]
fn status_report_counts_dirty_and_missing() {
    let present = collect_repo_status(
        "api",
        Some(GitReports {
            branch: output("main"),
            working_tree: output(" M x"),
            upstream: output("1\t0"),
            last_commit: output("1 hour ago"),
        }),
    );
    assert!(matches!(&present.presence, RepoPresence::Present(info) if info.branch == "main"));
    let missing = collect_repo_status("gone", None);
    let labels = StatusLabels { clean: "clean".to_owned(), dirty: "dirty".to_owned(), missing: "missing".to_owned() };
    let report = status_report(&vec![present, missing], &labels);
    assert_eq!(report.dirty_count, 1);
    assert_eq!(report.missing_count, 1);
    for cell in ["Repo", "Branch", "Status", "Upstream", "Last Commit", "api", "main", "dirty", "1↑", "1 hour ago", "gone", "missing"] {
        assert!(report.table.contains(cell), "table must show {cell}");
    }
}

#[test]
fn status_targets_follow_the_filter() {
    let mut config = ReportalConfig::new("code".to_owned());
    let mut tagged = RepoEntry::at_path("~/api".to_owned());
    tagged.tags = vec!["work".to_owned()];
    assert!(config.add_repo("api".to_owned(), tagged).is_ok());
    assert!(config.add_repo("blog".to_owned(), RepoEntry::at_path("/blog".to_owned())).is_ok());
    let targets = status_targets(&config, &TagFilter::ByTag("work".to_owned()), &Some("/h".to_owned())).expect("targets");
    assert_eq!(targets, vec![("api".to_owned(), "/h/api".to_owned())]);
    assert!(matches!(status_targets(&config, &TagFilter::ByTag("none".to_owned()), &None), Err(ReportalError::NoReposMatchFilter)));
}

#[test]
fn sync_steps_check_then_pull() {
    assert!(matches!(sync_single_repo(false, None), SyncAction::Finish(SyncOutcome::Missing)));
    assert!(matches!(sync_single_repo(true, None), SyncAction::CheckStatus));
    assert!(matches!(sync_single_repo(true, Some(&output(""))), SyncAction::Pull));
    assert!(matches!(sync_single_repo(true, Some(&output("?? new"))), SyncAction::Finish(SyncOutcome::SkippedDirty)));
    assert!(matches!(
        sync_single_repo(true, Some(&GitCommandOutcome::SpawnFailed)),
        SyncAction::Finish(SyncOutcome::PullFailed(message)) if message == "could not determine working tree state"
    ));
    assert!(matches!(check_pull_readiness(&GitCommandOutcome::NonZeroExit), PullReadiness::Unknown));
}

#[test]
fn pull_outcomes_and_lines() {
    let pulled = pull_repo(PullRun::Exited { success: true, standard_output: "Already up to date.\n".to_owned(), standard_error: String::new() });
    let line = print_sync_result(&RepoSyncResult { alias: "a".to_owned(), outcome: pulled });
    assert_eq!((line.to_standard_error, line.marker, line.message.as_str()), (false, "✓", "up to date"));
    let failed = pull_repo(PullRun::Exited { success: false, standard_output: String::new(), standard_error: " conflict \n".to_owned() });
    let line = print_sync_result(&RepoSyncResult { alias: "b".to_owned(), outcome: failed });
    assert_eq!((line.to_standard_error, line.marker, line.message.as_str()), (true, "✗", "pull failed: conflict"));
    let fresh = print_sync_result(&RepoSyncResult { alias: "c".to_owned(), outcome: SyncOutcome::Pulled("Fast-forward".to_owned()) });
    assert_eq!((fresh.marker, fresh.message.as_str()), ("↓", "pulled"));
}

#[test]
fn sync_tally_counts_missing_as_failed() {
    let results = vec![
        RepoSyncResult { alias: "a".to_owned(), outcome: SyncOutcome::Pulled(String::new()) },
        RepoSyncResult { alias: "b".to_owned(), outcome: SyncOutcome::SkippedDirty },
        RepoSyncResult { alias: "c".to_owned(), outcome: SyncOutcome::Missing },
        RepoSyncResult { alias: "d".to_owned(), outcome: SyncOutcome::PullFailed("x".to_owned()) },
    ];
    let tally = run_sync(&results);
    assert_eq!((tally.pulled, tally.skipped, tally.failed), (1, 1, 2));
}
