//! Pulling every repository: skip those missing or with uncommitted
//! changes, pull the rest, report each, and count the outcomes.

use vstd::prelude::*;
use crate::git_commands::GitCommandOutcome;
use crate::text::{chars_of, contains_str, extend_str, has_substring, string_of, trim, trimmed};

verus! {

/// Whether a repository can be pulled safely.
pub enum PullReadiness {
    Ready,
    DirtyWorkingTree,
    Unknown,
}

/// How syncing one repository ended.
pub enum SyncOutcome {
    /// Pulled; git's trimmed output.
    Pulled(String),
    /// Skipped: uncommitted changes.
    SkippedDirty,
    /// Not on disk.
    Missing,
    /// The pull, or the check before it, failed; why.
    PullFailed(String),
}

/// The outcome for one repository.
pub struct RepoSyncResult {
    pub alias: String,
    pub outcome: SyncOutcome,
}

/// Ready when `git status --porcelain` succeeded with no output, dirty
/// when it printed something, unknown when it failed.
pub fn check_pull_readiness(status_report: &GitCommandOutcome) -> (readiness: PullReadiness)
    ensures
        match *status_report {
            GitCommandOutcome::Output(output) => if output@.len() == 0 {
                readiness is Ready
            } else {
                readiness is DirtyWorkingTree
            },
            _ => readiness is Unknown,
        },
{
    match status_report {
        GitCommandOutcome::Output(output) => if output.as_str().is_empty() {
            PullReadiness::Ready
        } else {
            PullReadiness::DirtyWorkingTree
        },
        _ => PullReadiness::Unknown,
    }
}

/// How `git pull` ran.
pub enum PullRun {
    /// It could not start; why.
    SpawnFailed(String),
    /// It exited; whether successfully, and what it printed.
    Exited { success: bool, standard_output: String, standard_error: String },
}

/// Pulled with the trimmed output on success; failed with the trimmed
/// error output otherwise, or with the reason it could not start.
pub fn pull_repo(run: PullRun) -> (outcome: SyncOutcome)
    ensures
        match run {
            PullRun::SpawnFailed(why) => outcome matches SyncOutcome::PullFailed(message) && message@
                == why@,
            PullRun::Exited { success, standard_output, standard_error } => if success {
                outcome matches SyncOutcome::Pulled(text) && text@ == trim(standard_output@)
            } else {
                outcome matches SyncOutcome::PullFailed(message) && message@ == trim(
                    standard_error@,
                )
            },
        },
{
    match run {
        PullRun::SpawnFailed(why) => SyncOutcome::PullFailed(why),
        PullRun::Exited { success, standard_output, standard_error } => {
            if success {
                let characters = chars_of(standard_output.as_str());
                SyncOutcome::Pulled(string_of(trimmed(characters.as_slice()).as_slice()))
            } else {
                let characters = chars_of(standard_error.as_str());
                SyncOutcome::PullFailed(string_of(trimmed(characters.as_slice()).as_slice()))
            }
        },
    }
}

/// What syncing a repository needs next.
pub enum SyncAction {
    /// Run `git status --porcelain` and come back with its outcome.
    CheckStatus,
    /// Run `git pull` and hand its run to `pull_repo`.
    Pull,
    /// Nothing more: this is the outcome.
    Finish(SyncOutcome),
}

/// The next step for a repository: missing when it is not on disk; a
/// status check first; then a pull when ready, a skip when dirty, or a
/// failure when the state could not be read.
pub fn sync_single_repo(on_disk: bool, status_report: Option<&GitCommandOutcome>) -> (action: SyncAction)
    ensures
        !on_disk ==> action matches SyncAction::Finish(SyncOutcome::Missing),
        on_disk && status_report is None ==> action is CheckStatus,
        on_disk && status_report is Some ==> match *status_report->0 {
            GitCommandOutcome::Output(output) => if output@.len() == 0 {
                action is Pull
            } else {
                action matches SyncAction::Finish(SyncOutcome::SkippedDirty)
            },
            _ => action matches SyncAction::Finish(SyncOutcome::PullFailed(message)) && message@
                == "could not determine working tree state"@,
        },
{
    if !on_disk {
        return SyncAction::Finish(SyncOutcome::Missing);
    }
    match status_report {
        None => SyncAction::CheckStatus,
        Some(report) => match check_pull_readiness(report) {
            PullReadiness::Ready => SyncAction::Pull,
            PullReadiness::DirtyWorkingTree => SyncAction::Finish(SyncOutcome::SkippedDirty),
            PullReadiness::Unknown => SyncAction::Finish(
                SyncOutcome::PullFailed("could not determine working tree state".to_owned()),
            ),
        },
    }
}

/// One reported line: on stderr or stdout, its marker, and its message.
pub struct SyncLine {
    pub to_standard_error: bool,
    pub marker: &'static str,
    pub message: String,
}

/// The line for an outcome: `✓ up to date` when git said "Already up to
/// date", else `↓ pulled`, on stdout; `! skipped (dirty working tree)`,
/// `✗ missing on disk` and `✗ pull failed: <why>` on stderr.
pub open spec fn sync_line_parts(outcome: SyncOutcome) -> (bool, Seq<char>, Seq<char>) {
    match outcome {
        SyncOutcome::Pulled(output) => if has_substring(output@, "Already up to date"@) {
            (false, "✓"@, "up to date"@)
        } else {
            (false, "↓"@, "pulled"@)
        },
        SyncOutcome::SkippedDirty => (true, "!"@, "skipped (dirty working tree)"@),
        SyncOutcome::Missing => (true, "✗"@, "missing on disk"@),
        SyncOutcome::PullFailed(message) => (true, "✗"@, "pull failed: "@ + message@),
    }
}

/// The report line for one repository's outcome.
pub fn print_sync_result(sync_result: &RepoSyncResult) -> (line: SyncLine)
    ensures
        (line.to_standard_error, line.marker@, line.message@) == sync_line_parts(sync_result.outcome),
{
    match &sync_result.outcome {
        SyncOutcome::Pulled(output) => {
            let characters = chars_of(output.as_str());
            if contains_str(characters.as_slice(), "Already up to date") {
                SyncLine { to_standard_error: false, marker: "✓", message: "up to date".to_owned() }
            } else {
                SyncLine { to_standard_error: false, marker: "↓", message: "pulled".to_owned() }
            }
        },
        SyncOutcome::SkippedDirty => SyncLine {
            to_standard_error: true,
            marker: "!",
            message: "skipped (dirty working tree)".to_owned(),
        },
        SyncOutcome::Missing => SyncLine {
            to_standard_error: true,
            marker: "✗",
            message: "missing on disk".to_owned(),
        },
        SyncOutcome::PullFailed(error_message) => {
            let mut message: Vec<char> = Vec::new();
            extend_str(&mut message, "pull failed: ");
            extend_str(&mut message, error_message.as_str());
            SyncLine { to_standard_error: true, marker: "✗", message: string_of(message.as_slice()) }
        },
    }
}

/// How many repositories were pulled, skipped, and failed (missing ones
/// count as failed).
pub struct SyncTally {
    pub pulled: usize,
    pub skipped: usize,
    pub failed: usize,
}

/// The tally of the outcomes.
pub open spec fn tally_of(results: Seq<RepoSyncResult>) -> (nat, nat, nat)
    decreases results.len(),
{
    if results.len() == 0 {
        (0, 0, 0)
    } else {
        let (pulled, skipped, failed) = tally_of(results.drop_last());
        match results.last().outcome {
            SyncOutcome::Pulled(_) => (pulled + 1, skipped, failed),
            SyncOutcome::SkippedDirty => (pulled, skipped + 1, failed),
            _ => (pulled, skipped, failed + 1),
        }
    }
}

/// Counts the outcomes of a sync run.
pub fn run_sync(results: &Vec<RepoSyncResult>) -> (tally: SyncTally)
    ensures
        (tally.pulled as nat, tally.skipped as nat, tally.failed as nat) == tally_of(results@),
        tally.pulled + tally.skipped + tally.failed == results@.len(),
{
    let mut tally = SyncTally { pulled: 0, skipped: 0, failed: 0 };
    let mut index: usize = 0;
    while index < results.len()
        invariant
            index <= results@.len(),
            (tally.pulled as nat, tally.skipped as nat, tally.failed as nat) == tally_of(
                results@.take(index as int),
            ),
            tally.pulled + tally.skipped + tally.failed == index,
        decreases results@.len() - index,
    {
        let ghost prefix = results@.take(index + 1);
        assert(prefix.drop_last() =~= results@.take(index as int));
        assert(prefix.last() == results@[index as int]);
        match &results[index].outcome {
            SyncOutcome::Pulled(_) => {
                tally.pulled = tally.pulled + 1;
            },
            SyncOutcome::SkippedDirty => {
                tally.skipped = tally.skipped + 1;
            },
            _ => {
                tally.failed = tally.failed + 1;
            },
        }
        index = index + 1;
    }
    assert(results@.take(results@.len() as int) =~= results@);
    tally
}

} // verus!
