//! The status table: for each repository its branch, whether its working
//! tree is clean, how far it is from its upstream, and how old its last
//! commit is, read from what `git` reported.

use vstd::prelude::*;
use crate::config::{ReportalConfig, TagFilter, filtered_positions};
use crate::error::ReportalError;
use crate::git_commands::GitCommandOutcome;
use crate::text::{
    chars_of, decimal, digits_value, extend_str, parse_decimal_usize, parses_as_usize, push_decimal,
    split_chars, split_on, string_of, string_views, unsigned_body,
};

verus! {

/// Whether the working tree has uncommitted changes.
#[derive(PartialEq, Eq, Structural, Clone, Copy)]
pub enum WorkingTreeState {
    Clean,
    Dirty,
}

/// Commits on each side of the upstream.
#[derive(PartialEq, Eq, Structural, Clone, Copy)]
pub struct AheadBehindCounts {
    pub ahead: usize,
    pub behind: usize,
}

/// How far the branch is from its upstream.
#[derive(PartialEq, Eq, Structural, Clone, Copy)]
pub enum UpstreamDelta {
    Counted(AheadBehindCounts),
    NoUpstream,
}

/// Whether `N\tM` could be read.
pub enum RevListParse {
    Parsed(AheadBehindCounts),
    Malformed,
}

/// Whether a number could be read.
pub enum UsizeParse {
    Valid(usize),
    Invalid,
}

/// What `git` said about a repository that is on disk.
pub struct GitInfo {
    pub branch: String,
    pub working_tree: WorkingTreeState,
    pub upstream_delta: UpstreamDelta,
    pub last_commit_age: String,
}

/// A repository on disk, or missing.
pub enum RepoPresence {
    Present(GitInfo),
    Missing,
}

/// The status of one repository.
pub struct RepoGitStatus {
    pub alias: String,
    pub presence: RepoPresence,
}

/// Reads a number as `str::parse::<usize>` does.
pub fn parse_usize(raw_text: &str) -> (parsed: UsizeParse)
    ensures
        match parsed {
            UsizeParse::Valid(value) => parses_as_usize(raw_text@) && value as nat == digits_value(
                unsigned_body(raw_text@),
            ),
            UsizeParse::Invalid => !parses_as_usize(raw_text@),
        },
{
    let characters = chars_of(raw_text);
    match parse_decimal_usize(characters.as_slice()) {
        Some(value) => UsizeParse::Valid(value),
        None => UsizeParse::Invalid,
    }
}

fn parse_usize_chars(raw: &[char]) -> (parsed: UsizeParse)
    ensures
        match parsed {
            UsizeParse::Valid(value) => parses_as_usize(raw@) && value as nat == digits_value(
                unsigned_body(raw@),
            ),
            UsizeParse::Invalid => !parses_as_usize(raw@),
        },
{
    match parse_decimal_usize(raw) {
        Some(value) => UsizeParse::Valid(value),
        None => UsizeParse::Invalid,
    }
}

/// The counts in `git rev-list --left-right --count` output: the first two
/// tab-separated pieces, both numbers.
pub open spec fn rev_list_counts(raw: Seq<char>) -> Option<(nat, nat)> {
    let parts = split_on(raw, '\t');
    if parts.len() >= 2 && parses_as_usize(parts[0]) && parses_as_usize(parts[1]) {
        Some((digits_value(unsigned_body(parts[0])), digits_value(unsigned_body(parts[1]))))
    } else {
        None
    }
}

/// Reads `N\tM` into ahead and behind counts.
pub fn parse_rev_list_counts(raw_counts: &str) -> (parsed: RevListParse)
    ensures
        match rev_list_counts(raw_counts@) {
            Some((ahead, behind)) => parsed matches RevListParse::Parsed(counts) && counts.ahead
                == ahead && counts.behind == behind,
            None => parsed is Malformed,
        },
{
    let characters = chars_of(raw_counts);
    let parts = split_chars(characters.as_slice(), '\t');
    if parts.len() < 2 {
        return RevListParse::Malformed;
    }
    assert(parts@[0]@ == split_on(raw_counts@, '\t')[0]);
    assert(parts@[1]@ == split_on(raw_counts@, '\t')[1]);
    match (parse_usize_chars(parts[0].as_slice()), parse_usize_chars(parts[1].as_slice())) {
        (UsizeParse::Valid(ahead), UsizeParse::Valid(behind)) => RevListParse::Parsed(
            AheadBehindCounts { ahead, behind },
        ),
        _ => RevListParse::Malformed,
    }
}

/// The branch shown: `detached` for an empty answer or `HEAD`, `unknown`
/// when git failed, `no-git` when it could not run.
pub open spec fn branch_text(outcome: GitCommandOutcome) -> Seq<char> {
    match outcome {
        GitCommandOutcome::Output(branch) => if branch@.len() == 0 || branch@ == "HEAD"@ {
            "detached"@
        } else {
            branch@
        },
        GitCommandOutcome::NonZeroExit => "unknown"@,
        GitCommandOutcome::SpawnFailed => "no-git"@,
    }
}

/// Clean only when `git status --porcelain` succeeded with no output.
pub open spec fn working_tree_of(outcome: GitCommandOutcome) -> WorkingTreeState {
    match outcome {
        GitCommandOutcome::Output(porcelain) => if porcelain@.len() == 0 {
            WorkingTreeState::Clean
        } else {
            WorkingTreeState::Dirty
        },
        _ => WorkingTreeState::Dirty,
    }
}

/// The ahead and behind counts when rev-list succeeded with readable ones.
pub open spec fn upstream_of(outcome: GitCommandOutcome) -> Option<(nat, nat)> {
    match outcome {
        GitCommandOutcome::Output(counts) => rev_list_counts(counts@),
        _ => None,
    }
}

/// The last commit's age, `no commits` when git failed, `no-git` when it
/// could not run.
pub open spec fn commit_age_text(outcome: GitCommandOutcome) -> Seq<char> {
    match outcome {
        GitCommandOutcome::Output(age) => age@,
        GitCommandOutcome::NonZeroExit => "no commits"@,
        GitCommandOutcome::SpawnFailed => "no-git"@,
    }
}

/// The branch from `git rev-parse --abbrev-ref HEAD`.
pub fn read_branch_name(outcome: GitCommandOutcome) -> (branch: String)
    ensures
        branch@ == branch_text(outcome),
{
    match outcome {
        GitCommandOutcome::Output(branch) => {
            if branch.as_str().is_empty() || crate::config::same_text(branch.as_str(), "HEAD") {
                "detached".to_owned()
            } else {
                branch
            }
        },
        GitCommandOutcome::NonZeroExit => "unknown".to_owned(),
        GitCommandOutcome::SpawnFailed => "no-git".to_owned(),
    }
}

/// The working tree state from `git status --porcelain`.
pub fn read_working_tree_state(outcome: &GitCommandOutcome) -> (state: WorkingTreeState)
    ensures
        state == working_tree_of(*outcome),
{
    match outcome {
        GitCommandOutcome::Output(output) => if output.as_str().is_empty() {
            WorkingTreeState::Clean
        } else {
            WorkingTreeState::Dirty
        },
        _ => WorkingTreeState::Dirty,
    }
}

/// The upstream delta from `git rev-list --left-right --count HEAD...@{upstream}`.
pub fn read_upstream_delta(outcome: &GitCommandOutcome) -> (delta: UpstreamDelta)
    ensures
        match upstream_of(*outcome) {
            Some((ahead, behind)) => delta matches UpstreamDelta::Counted(counts) && counts.ahead
                == ahead && counts.behind == behind,
            None => delta is NoUpstream,
        },
{
    match outcome {
        GitCommandOutcome::Output(counts_text) => match parse_rev_list_counts(counts_text.as_str()) {
            RevListParse::Parsed(counts) => UpstreamDelta::Counted(counts),
            RevListParse::Malformed => UpstreamDelta::NoUpstream,
        },
        _ => UpstreamDelta::NoUpstream,
    }
}

/// The last commit's age from `git log -1 --format=%cr`.
pub fn read_last_commit_age(outcome: GitCommandOutcome) -> (age: String)
    ensures
        age@ == commit_age_text(outcome),
{
    match outcome {
        GitCommandOutcome::Output(age) => age,
        GitCommandOutcome::NonZeroExit => "no commits".to_owned(),
        GitCommandOutcome::SpawnFailed => "no-git".to_owned(),
    }
}

/// The four `git` reports gathered for a repository on disk.
pub struct GitReports {
    pub branch: GitCommandOutcome,
    pub working_tree: GitCommandOutcome,
    pub upstream: GitCommandOutcome,
    pub last_commit: GitCommandOutcome,
}

/// The status of a repository: missing when it is not on disk, else what
/// the reports say.
pub fn collect_repo_status(alias: &str, reports: Option<GitReports>) -> (status: RepoGitStatus)
    ensures
        status.alias@ == alias@,
        match reports {
            None => status.presence is Missing,
            Some(found) => status.presence matches RepoPresence::Present(info) && info.branch@
                == branch_text(found.branch) && info.working_tree == working_tree_of(
                found.working_tree,
            ) && info.last_commit_age@ == commit_age_text(found.last_commit) && match upstream_of(
                found.upstream,
            ) {
                Some((ahead, behind)) => info.upstream_delta matches UpstreamDelta::Counted(counts)
                    && counts.ahead == ahead && counts.behind == behind,
                None => info.upstream_delta is NoUpstream,
            },
        },
{
    match reports {
        Some(found) => {
            let working_tree = read_working_tree_state(&found.working_tree);
            let upstream_delta = read_upstream_delta(&found.upstream);
            let branch = read_branch_name(found.branch);
            let last_commit_age = read_last_commit_age(found.last_commit);
            RepoGitStatus {
                alias: alias.to_owned(),
                presence: RepoPresence::Present(
                    GitInfo { branch, working_tree, upstream_delta, last_commit_age },
                ),
            }
        },
        None => RepoGitStatus { alias: alias.to_owned(), presence: RepoPresence::Missing },
    }
}

/// `N↑` for commits ahead and `M↓` for commits behind, space-separated,
/// each only when non-zero; `synced` when both are zero; `no upstream`
/// without an upstream.
pub open spec fn upstream_text(delta: UpstreamDelta) -> Seq<char> {
    match delta {
        UpstreamDelta::Counted(counts) => if counts.ahead == 0 && counts.behind == 0 {
            "synced"@
        } else if counts.behind == 0 {
            decimal(counts.ahead as nat) + "↑"@
        } else if counts.ahead == 0 {
            decimal(counts.behind as nat) + "↓"@
        } else {
            decimal(counts.ahead as nat) + "↑"@ + " "@ + decimal(counts.behind as nat) + "↓"@
        },
        UpstreamDelta::NoUpstream => "no upstream"@,
    }
}

/// Formats the upstream delta.
pub fn format_upstream_delta(upstream_delta: &UpstreamDelta) -> (text: String)
    ensures
        text@ == upstream_text(*upstream_delta),
{
    match upstream_delta {
        UpstreamDelta::Counted(counts) => {
            if counts.ahead == 0 && counts.behind == 0 {
                return "synced".to_owned();
            }
            let mut text: Vec<char> = Vec::new();
            if counts.ahead != 0 {
                push_decimal(&mut text, counts.ahead);
                extend_str(&mut text, "↑");
            }
            if counts.behind != 0 {
                if counts.ahead != 0 {
                    extend_str(&mut text, " ");
                }
                push_decimal(&mut text, counts.behind);
                extend_str(&mut text, "↓");
            }
            string_of(text.as_slice())
        },
        UpstreamDelta::NoUpstream => "no upstream".to_owned(),
    }
}

proof fn lemma_digits_hold_no_arrow(value: nat)
    ensures
        !decimal(value).contains('↑'),
        !decimal(value).contains('↓'),
{
    crate::text::lemma_decimal_is_digits(value);
    let d = decimal(value);
    assert forall|i: int| 0 <= i < d.len() implies d[i] != '↑' && d[i] != '↓' by {
        assert(crate::text::is_digit(d[i]));
    }
}

/// The upstream text reads the counts the right way round: the commits
/// ahead come first, followed by `↑`; the commits behind come last,
/// followed by `↓`; `↑` appears exactly when the branch is ahead and `↓`
/// exactly when it is behind.
pub proof fn lemma_upstream_text_arrows(counts: AheadBehindCounts)
    ensures
        ({
            let text = upstream_text(UpstreamDelta::Counted(counts));
            let ahead = decimal(counts.ahead as nat);
            let behind = decimal(counts.behind as nat);
            &&& counts.ahead > 0 ==> text.len() > ahead.len() && text.take(ahead.len() + 1int) == ahead.push('↑')
            &&& counts.behind > 0 ==> text.len() > behind.len() && text.skip(text.len() - behind.len() - 1)
                == behind.push('↓')
            &&& (text.contains('↑') <==> counts.ahead > 0)
            &&& (text.contains('↓') <==> counts.behind > 0)
            &&& counts.ahead == 0 && counts.behind == 0 ==> text == "synced"@
            &&& counts.ahead > 0 && counts.behind == 0 ==> text.len() == ahead.len() + 1
            &&& counts.ahead == 0 && counts.behind > 0 ==> text.len() == behind.len() + 1
            &&& counts.ahead > 0 && counts.behind > 0 ==> text.len() == ahead.len() + behind.len() + 3
                && text[ahead.len() + 1int] == ' '
        }),
{
    reveal_strlit("↑");
    reveal_strlit("↓");
    reveal_strlit(" ");
    reveal_strlit("synced");
    let text = upstream_text(UpstreamDelta::Counted(counts));
    let ahead = decimal(counts.ahead as nat);
    let behind = decimal(counts.behind as nat);
    lemma_digits_hold_no_arrow(counts.ahead as nat);
    lemma_digits_hold_no_arrow(counts.behind as nat);
    crate::text::lemma_decimal_is_digits(counts.ahead as nat);
    crate::text::lemma_decimal_is_digits(counts.behind as nat);
    if counts.ahead == 0 && counts.behind == 0 {
        assert(text == "synced"@);
        assert forall|i: int| 0 <= i < text.len() implies text[i] != '↑' && text[i] != '↓' by {}
    } else if counts.behind == 0 {
        assert(text == ahead.push('↑'));
        assert(text.take(ahead.len() + 1int) =~= ahead.push('↑'));
        assert(text[ahead.len() as int] == '↑');
        assert forall|i: int| 0 <= i < text.len() implies text[i] != '↓' by {
            if i < ahead.len() {
                assert(text[i] == ahead[i]);
            }
        }
    } else if counts.ahead == 0 {
        assert(text == behind.push('↓'));
        assert(text.skip(text.len() - behind.len() - 1) =~= behind.push('↓'));
        assert(text[behind.len() as int] == '↓');
        assert forall|i: int| 0 <= i < text.len() implies text[i] != '↑' by {
            if i < behind.len() {
                assert(text[i] == behind[i]);
            }
        }
    } else {
        let head = ahead.push('↑').push(' ');
        assert(text =~= head + behind.push('↓'));
        assert(text.take(ahead.len() + 1int) =~= ahead.push('↑'));
        assert(text.skip(text.len() - behind.len() - 1) =~= behind.push('↓'));
        assert(text[ahead.len() as int] == '↑');
        assert(text[ahead.len() + 1int] == ' ');
        assert(text[text.len() - 1] == '↓');
    }
}

// ---------------------------------------------------------------------
// The table
// ---------------------------------------------------------------------

/// What `comfy_table` prints for a table with the given header and rows
/// and its default settings. It depends on the cell texts alone: with
/// content arrangement disabled and unstyled cells, the terminal is
/// never consulted.
pub uninterp spec fn table_text(header: Seq<Seq<char>>, rows: Seq<Seq<Seq<char>>>) -> Seq<char>;

/// The rows as plain values.
pub open spec fn row_views(rows: Seq<Vec<String>>) -> Seq<Seq<Seq<char>>> {
    rows.map_values(|row: Vec<String>| string_views(row@))
}

/// Renders a table with `comfy_table`: a header, then one row per entry,
/// each cell holding its text as given.
#[verifier::external_body]
fn render_table(header: &Vec<String>, rows: &Vec<Vec<String>>) -> (text: String)
    ensures
        text@ == table_text(string_views(header@), row_views(rows@)),
{
    let mut table = comfy_table::Table::new();
    table.set_header(header.clone());
    table.add_rows(rows.clone());
    table.to_string()
}

/// The column titles of the status table.
pub open spec fn status_header() -> Seq<Seq<char>> {
    seq!["Repo"@, "Branch"@, "Status"@, "Upstream"@, "Last Commit"@]
}

/// The labels the status cells show, styled as the caller wants.
pub struct StatusLabels {
    pub clean: String,
    pub dirty: String,
    pub missing: String,
}

/// The row of one repository: alias, branch, clean or dirty label,
/// upstream, last commit; a missing repository shows `—` but for its
/// alias and the missing label.
pub open spec fn status_row(status: RepoGitStatus, labels: StatusLabels) -> Seq<Seq<char>> {
    match status.presence {
        RepoPresence::Present(info) => seq![
            status.alias@,
            info.branch@,
            match info.working_tree {
                WorkingTreeState::Clean => labels.clean@,
                WorkingTreeState::Dirty => labels.dirty@,
            },
            upstream_text(info.upstream_delta),
            info.last_commit_age@,
        ],
        RepoPresence::Missing => seq![status.alias@, "—"@, labels.missing@, "—"@, "—"@],
    }
}

/// The statuses that are present with a dirty working tree.
pub open spec fn is_dirty(status: RepoGitStatus) -> bool {
    status.presence matches RepoPresence::Present(info) && info.working_tree
        == WorkingTreeState::Dirty
}

/// What the status command prints: the table, and the counts of dirty and
/// missing repositories for its footer.
pub struct StatusReport {
    pub table: String,
    pub dirty_count: usize,
    pub missing_count: usize,
}

/// How many statuses satisfy a predicate.
pub open spec fn count_where(statuses: Seq<RepoGitStatus>, predicate: spec_fn(RepoGitStatus) -> bool) -> nat
    decreases statuses.len(),
{
    if statuses.len() == 0 {
        0
    } else {
        count_where(statuses.drop_last(), predicate) + if predicate(statuses.last()) {
            1nat
        } else {
            0nat
        }
    }
}

fn status_row_cells(status: &RepoGitStatus, labels: &StatusLabels) -> (row: Vec<String>)
    ensures
        string_views(row@) == status_row(*status, *labels),
{
    let mut row: Vec<String> = Vec::new();
    row.push(status.alias.clone());
    match &status.presence {
        RepoPresence::Present(info) => {
            row.push(info.branch.clone());
            match info.working_tree {
                WorkingTreeState::Clean => row.push(labels.clean.clone()),
                WorkingTreeState::Dirty => row.push(labels.dirty.clone()),
            }
            row.push(format_upstream_delta(&info.upstream_delta));
            row.push(info.last_commit_age.clone());
        },
        RepoPresence::Missing => {
            row.push("—".to_owned());
            row.push(labels.missing.clone());
            row.push("—".to_owned());
            row.push("—".to_owned());
        },
    }
    assert(string_views(row@) =~= status_row(*status, *labels));
    row
}

/// The status table of the statuses in order, with the dirty and missing
/// counts.
pub fn status_report(statuses: &Vec<RepoGitStatus>, labels: &StatusLabels) -> (report: StatusReport)
    ensures
        report.table@ == table_text(
            status_header(),
            statuses@.map_values(|status: RepoGitStatus| status_row(status, *labels)),
        ),
        report.dirty_count == count_where(statuses@, |status: RepoGitStatus| is_dirty(status)),
        report.missing_count == count_where(
            statuses@,
            |status: RepoGitStatus| status.presence is Missing,
        ),
{
    let mut header: Vec<String> = Vec::new();
    header.push("Repo".to_owned());
    header.push("Branch".to_owned());
    header.push("Status".to_owned());
    header.push("Upstream".to_owned());
    header.push("Last Commit".to_owned());
    assert(string_views(header@) =~= status_header());
    let mut rows: Vec<Vec<String>> = Vec::new();
    let mut dirty_count: usize = 0;
    let mut missing_count: usize = 0;
    let mut index: usize = 0;
    while index < statuses.len()
        invariant
            index <= statuses@.len(),
            row_views(rows@) == statuses@.take(index as int).map_values(
                |status: RepoGitStatus| status_row(status, *labels),
            ),
            dirty_count == count_where(
                statuses@.take(index as int),
                |status: RepoGitStatus| is_dirty(status),
            ),
            missing_count == count_where(
                statuses@.take(index as int),
                |status: RepoGitStatus| status.presence is Missing,
            ),
            dirty_count <= index,
            missing_count <= index,
        decreases statuses@.len() - index,
    {
        let status = &statuses[index];
        let ghost prefix = statuses@.take(index + 1);
        assert(prefix.drop_last() =~= statuses@.take(index as int));
        assert(prefix.last() == statuses@[index as int]);
        let row = status_row_cells(status, labels);
        let ghost before = rows@;
        rows.push(row);
        assert(row_views(rows@) =~= row_views(before).push(string_views(row@)));
        assert(prefix.map_values(|status: RepoGitStatus| status_row(status, *labels)) =~= statuses@.take(
            index as int,
        ).map_values(|status: RepoGitStatus| status_row(status, *labels)).push(
            status_row(*status, *labels),
        ));
        match &status.presence {
            RepoPresence::Present(info) => {
                if info.working_tree == WorkingTreeState::Dirty {
                    dirty_count = dirty_count + 1;
                }
            },
            RepoPresence::Missing => {
                missing_count = missing_count + 1;
            },
        }
        index = index + 1;
    }
    assert(statuses@.take(statuses@.len() as int) =~= statuses@);
    let table = render_table(&header, &rows);
    StatusReport { table, dirty_count, missing_count }
}

/// `N repo` for one, `N repos` otherwise, as the footer counts them.
pub open spec fn repo_count_phrase(count: nat) -> Seq<char> {
    decimal(count) + if count == 1 {
        " repo"@
    } else {
        " repos"@
    }
}

/// The count with its noun.
pub fn repo_count_text(count: usize) -> (text: String)
    ensures
        text@ == repo_count_phrase(count as nat),
{
    let mut text: Vec<char> = Vec::new();
    push_decimal(&mut text, count);
    if count == 1 {
        extend_str(&mut text, " repo");
    } else {
        extend_str(&mut text, " repos");
    }
    string_of(text.as_slice())
}

/// The repositories the status command checks: those passing the tag
/// filter, in key order, with their expanded paths; `NoReposMatchFilter`
/// when there are none.
pub fn status_targets(loaded_config: &ReportalConfig, tag_filter: &TagFilter, home: &Option<String>) -> (targets:
    Result<Vec<(String, String)>, ReportalError>)
    ensures
        filtered_positions(loaded_config.repos@, *tag_filter, 0).len() == 0 ==> targets matches Err(
            ReportalError::NoReposMatchFilter,
        ),
        filtered_positions(loaded_config.repos@, *tag_filter, 0).len() > 0 ==> (targets matches Ok(list)
            && list@.len() == filtered_positions(loaded_config.repos@, *tag_filter, 0).len()
            && forall|k: int|
            0 <= k < list@.len() ==> (#[trigger] list@[k]).0@ == loaded_config.repos@[filtered_positions(
                loaded_config.repos@,
                *tag_filter,
                0,
            )[k]].0@ && list@[k].1@ == loaded_config.repos@[filtered_positions(
                loaded_config.repos@,
                *tag_filter,
                0,
            )[k]].1.resolved_path_view(*home)),
{
    let positions = loaded_config.repos_matching_tag_filter(tag_filter);
    if positions.len() == 0 {
        return Err(ReportalError::NoReposMatchFilter);
    }
    let ghost chosen = filtered_positions(loaded_config.repos@, *tag_filter, 0);
    proof {
        crate::config::lemma_filtered_positions_in_range(loaded_config.repos@, *tag_filter, 0);
    }
    let mut targets: Vec<(String, String)> = Vec::new();
    let mut index: usize = 0;
    while index < positions.len()
        invariant
            positions@.map_values(|p: usize| p as int) == chosen,
            forall|k: int| 0 <= k < chosen.len() ==> 0 <= #[trigger] chosen[k] < loaded_config.repos@.len(),
            index <= positions@.len(),
            targets@.len() == index,
            forall|k: int|
                0 <= k < index ==> (#[trigger] targets@[k]).0@ == loaded_config.repos@[chosen[k]].0@
                    && targets@[k].1@ == loaded_config.repos@[chosen[k]].1.resolved_path_view(*home),
        decreases positions@.len() - index,
    {
        let position = positions[index];
        assert(chosen[index as int] == position as int);
        let repo = &loaded_config.repos[position];
        targets.push((repo.0.clone(), repo.1.resolved_path(home)));
        index = index + 1;
    }
    Ok(targets)
}

} // verus!
