//! Registering a repository: telling a git URL from a local path,
//! suggesting an alias, choosing where a clone goes, reading what git
//! reported, and recording the answers in the registry.

use vstd::prelude::*;
use crate::config::{
    RepoColor, RepoEntry, ReportalConfig, TabTitle, same_text,
};
use crate::error::ReportalError;
use crate::key_order::key_position;
use crate::paths::{file_name, file_name_of, join_path, join_paths, parent, parent_of};
use crate::prompts::{ColorPromptResult, kept_tags, parse_comma_separated_tags};
use crate::text::{
    chars_of, ends_with_str, extend_str, has_prefix, has_suffix, slice_chars,
    split_on, starts_with_str, string_of, string_views, trim, trimmed,
};

verus! {

// ---------------------------------------------------------------------
// Source and alias
// ---------------------------------------------------------------------

/// What `rep add` was given.
pub enum AddSource {
    /// A directory already on disk.
    LocalPath(String),
    /// A git URL to clone first.
    GitUrl(String),
}

/// Text that reads as a git URL: `https://`, `git@` or `ssh://` in front,
/// or `.git` at the end.
pub open spec fn looks_like_git_url(s: Seq<char>) -> bool {
    has_prefix(s, "https://"@) || has_prefix(s, "git@"@) || has_prefix(s, "ssh://"@) || has_suffix(
        s,
        ".git"@,
    )
}

/// Tells a git URL from a local path.
pub fn classify_add_source(raw_input: &str) -> (source: AddSource)
    ensures
        match source {
            AddSource::GitUrl(url) => looks_like_git_url(raw_input@) && url@ == raw_input@,
            AddSource::LocalPath(path) => !looks_like_git_url(raw_input@) && path@ == raw_input@,
        },
{
    let characters = chars_of(raw_input);
    let chars = characters.as_slice();
    if starts_with_str(chars, "https://") || starts_with_str(chars, "git@") || starts_with_str(
        chars,
        "ssh://",
    ) || ends_with_str(chars, ".git") {
        AddSource::GitUrl(raw_input.to_owned())
    } else {
        AddSource::LocalPath(raw_input.to_owned())
    }
}

/// An alias inferred from a path or URL, if any.
pub enum AliasSuggestion {
    Inferred(String),
    NoSuggestion,
}

/// The final component of the path, as `Path::file_name` gives it.
pub fn suggest_alias_from_path(directory_path: &str) -> (suggestion: AliasSuggestion)
    ensures
        match file_name(directory_path@) {
            Some(name) => suggestion matches AliasSuggestion::Inferred(alias) && alias@ == name,
            None => suggestion is NoSuggestion,
        },
{
    let characters = chars_of(directory_path);
    match file_name_of(characters.as_slice()) {
        Some(name) => AliasSuggestion::Inferred(string_of(name.as_slice())),
        None => AliasSuggestion::NoSuggestion,
    }
}

/// Index of the last `c` in `s`, or `-1`.
pub open spec fn last_index_of(s: Seq<char>, c: char) -> int
    decreases s.len(),
{
    if s.len() == 0 {
        -1
    } else if s.last() == c {
        s.len() - 1
    } else {
        last_index_of(s.drop_last(), c)
    }
}

/// What follows the last `c` in `s` (all of `s` without one): the first
/// piece `rsplit(c)` yields.
pub open spec fn after_last(s: Seq<char>, c: char) -> Seq<char> {
    s.skip(last_index_of(s, c) + 1)
}

/// `s` with every trailing repetition of a non-empty `suffix` removed, as
/// `trim_end_matches` does.
pub open spec fn strip_suffix_repeatedly(s: Seq<char>, suffix: Seq<char>) -> Seq<char>
    decreases s.len(),
{
    if suffix.len() > 0 && has_suffix(s, suffix) {
        strip_suffix_repeatedly(s.take(s.len() - suffix.len()), suffix)
    } else {
        s
    }
}

/// The repository name in a git URL: once every trailing `.git` is gone,
/// the text after the last `/` or `:` (whichever comes later), when it is
/// not empty.
pub open spec fn git_url_repo_name(git_url: Seq<char>) -> Option<Seq<char>> {
    let stripped = strip_suffix_repeatedly(git_url, ".git"@);
    let name = after_last(after_last(stripped, ':'), '/');
    if name.len() > 0 {
        Some(name)
    } else {
        None
    }
}

proof fn lemma_last_index_bounds(s: Seq<char>, c: char)
    ensures
        -1 <= last_index_of(s, c) < s.len(),
    decreases s.len(),
{
    if s.len() > 0 && s.last() != c {
        lemma_last_index_bounds(s.drop_last(), c);
    }
}

fn after_last_of(s: &[char], c: char) -> (piece: Vec<char>)
    ensures
        piece@ == after_last(s@, c),
{
    let mut index: usize = s.len();
    assert(s@.subrange(0, index as int) =~= s@);
    while index > 0 && s[index - 1] != c
        invariant
            index <= s@.len(),
            last_index_of(s@, c) == last_index_of(s@.subrange(0, index as int), c),
        decreases index,
    {
        assert(s@.subrange(0, index as int).drop_last() =~= s@.subrange(0, index - 1));
        index = index - 1;
    }
    proof {
        if index > 0 {
            assert(s@.subrange(0, index as int).last() == c);
        }
    }
    let piece = slice_chars(s, index, s.len());
    assert(piece@ =~= s@.skip(index as int));
    piece
}

fn strip_git_suffixes(url: &[char]) -> (stripped: Vec<char>)
    ensures
        stripped@ == strip_suffix_repeatedly(url@, ".git"@),
{
    proof {
        reveal_strlit(".git");
    }
    assert(".git"@ =~= seq!['.', 'g', 'i', 't']);
    let mut end: usize = url.len();
    let mut current = slice_chars(url, 0, end);
    assert(url@.subrange(0, end as int) =~= url@);
    while ends_with_str(current.as_slice(), ".git")
        invariant
            ".git"@.len() == 4,
            end <= url@.len(),
            current@ == url@.subrange(0, end as int),
            strip_suffix_repeatedly(url@, ".git"@) == strip_suffix_repeatedly(current@, ".git"@),
        decreases end,
    {
        assert(current@.take(end - 4) =~= url@.subrange(0, end - 4));
        end = end - 4;
        current = slice_chars(url, 0, end);
    }
    current
}

/// Suggests the repository name from a git URL.
pub fn repo_name_from_git_url(git_url: &str) -> (suggestion: AliasSuggestion)
    ensures
        match git_url_repo_name(git_url@) {
            Some(name) => suggestion matches AliasSuggestion::Inferred(alias) && alias@ == name,
            None => suggestion is NoSuggestion,
        },
{
    let characters = chars_of(git_url);
    let stripped = strip_git_suffixes(characters.as_slice());
    let after_colon = after_last_of(stripped.as_slice(), ':');
    let name = after_last_of(after_colon.as_slice(), '/');
    if name.len() == 0 {
        AliasSuggestion::NoSuggestion
    } else {
        AliasSuggestion::Inferred(string_of(name.as_slice()))
    }
}

/// The suggested alias, or empty text without one.
pub fn suggested_alias_text(suggestion: AliasSuggestion) -> (alias: String)
    ensures
        match suggestion {
            AliasSuggestion::Inferred(name) => alias@ == name@,
            AliasSuggestion::NoSuggestion => alias@.len() == 0,
        },
{
    match suggestion {
        AliasSuggestion::Inferred(name) => name,
        AliasSuggestion::NoSuggestion => String::new(),
    }
}

// ---------------------------------------------------------------------
// Clone placement
// ---------------------------------------------------------------------

/// Where a clone goes.
pub enum CloneDestination {
    /// A directory the user types.
    CustomPath,
    /// Next to a registered repository: inside its parent directory.
    SiblingOf(String),
    /// Inside a registered repository's directory.
    ChildOf(String),
}

/// The distinct parent directories of the repositories, from the first
/// repository (in key order) having each, as (alias, parent).
pub open spec fn parent_choices(repos: Seq<(String, RepoEntry)>, home: Option<String>) -> Seq<
    (Seq<char>, Seq<char>),
>
    decreases repos.len(),
{
    if repos.len() == 0 {
        Seq::empty()
    } else {
        let earlier = parent_choices(repos.drop_last(), home);
        match parent(repos.last().1.resolved_path_view(home)) {
            Some(directory) => if exists|k: int| 0 <= k < earlier.len() && earlier[k].1 == directory {
                earlier
            } else {
                earlier.push((repos.last().0@, directory))
            },
            None => earlier,
        }
    }
}

/// Choices as plain values.
pub open spec fn choice_views(choices: Seq<(&str, String)>) -> Seq<(Seq<char>, Seq<char>)> {
    choices.map_values(|choice: (&str, String)| (choice.0@, choice.1@))
}

/// The parent directory of every registered repository, once each, for
/// placing a clone beside one of them.
///
/// The directories seen so far are the labels already collected, searched
/// in order: vstd's contracts for `BTreeSet::insert` and `contains` hold
/// only for key types that obey `obeys_cmp`, which vstd establishes for
/// integers and not for `String`, so a set of strings would tell the proof
/// nothing about which parents were seen.
pub fn collect_registered_parent_directories<'config>(
    loaded_config: &'config ReportalConfig,
    home: &Option<String>,
) -> (choices: Vec<(&'config str, String)>)
    ensures
        choice_views(choices@) == parent_choices(loaded_config.repos@, *home),
{
    let ghost repos = loaded_config.repos@;
    let mut labeled: Vec<(&'config str, String)> = Vec::new();
    let mut index: usize = 0;
    while index < loaded_config.repos.len()
        invariant
            repos == loaded_config.repos@,
            index <= repos.len(),
            choice_views(labeled@) == parent_choices(repos.take(index as int), *home),
        decreases repos.len() - index,
    {
        let alias: &'config str = loaded_config.repos[index].0.as_str();
        let resolved = loaded_config.repos[index].1.resolved_path(home);
        let resolved_chars = chars_of(resolved.as_str());
        let ghost prefix = repos.take(index + 1);
        assert(prefix.drop_last() =~= repos.take(index as int));
        assert(prefix.last() == repos[index as int]);
        match parent_of(resolved_chars.as_slice()) {
            Some(directory) => {
                let ghost earlier = choice_views(labeled@);
                let mut seen = false;
                let mut k: usize = 0;
                while k < labeled.len()
                    invariant
                        k <= labeled@.len(),
                        earlier == choice_views(labeled@),
                        seen ==> exists|j: int| 0 <= j < earlier.len() && earlier[j].1 == directory@,
                        !seen ==> forall|j: int| 0 <= j < k ==> earlier[j].1 != directory@,
                    decreases labeled@.len() - k,
                {
                    let existing = chars_of(labeled[k].1.as_str());
                    if crate::text::chars_equal(existing.as_slice(), directory.as_slice()) {
                        assert(earlier[k as int].1 == directory@);
                        seen = true;
                    }
                    k = k + 1;
                }
                if !seen {
                    labeled.push((alias, string_of(directory.as_slice())));
                    assert(choice_views(labeled@) =~= earlier.push((alias@, directory@)));
                }
            },
            None => {},
        }
        index = index + 1;
    }
    assert(repos.take(repos.len() as int) =~= repos);
    labeled
}

/// Every registered repository's own directory, as (alias, directory), in
/// key order.
pub fn collect_registered_repo_directories<'config>(
    loaded_config: &'config ReportalConfig,
    home: &Option<String>,
) -> (choices: Vec<(&'config str, String)>)
    ensures
        choices@.len() == loaded_config.repos@.len(),
        forall|i: int|
            0 <= i < choices@.len() ==> (#[trigger] choices@[i]).0@ == loaded_config.repos@[i].0@
                && choices@[i].1@ == loaded_config.repos@[i].1.resolved_path_view(*home),
{
    let mut directories: Vec<(&'config str, String)> = Vec::new();
    let mut index: usize = 0;
    while index < loaded_config.repos.len()
        invariant
            index <= loaded_config.repos@.len(),
            directories@.len() == index,
            forall|i: int|
                0 <= i < index ==> (#[trigger] directories@[i]).0@ == loaded_config.repos@[i].0@
                    && directories@[i].1@ == loaded_config.repos@[i].1.resolved_path_view(*home),
        decreases loaded_config.repos@.len() - index,
    {
        let alias: &'config str = loaded_config.repos[index].0.as_str();
        directories.push((alias, loaded_config.repos[index].1.resolved_path(home)));
        index = index + 1;
    }
    directories
}

/// The placement menu: a custom path always, then a sibling choice when
/// there are parent directories, then a child choice when there are
/// repository directories.
pub open spec fn placement_menu(has_sibling: bool, has_child: bool) -> Seq<Seq<char>> {
    seq!["Custom path"@] + (if has_sibling {
        seq!["Sibling of existing repo"@]
    } else {
        Seq::empty()
    }) + (if has_child {
        seq!["Child of existing repo"@]
    } else {
        Seq::empty()
    })
}

/// The placement menu labels.
pub fn clone_placement_labels(has_sibling: bool, has_child: bool) -> (labels: Vec<String>)
    ensures
        string_views(labels@) == placement_menu(has_sibling, has_child),
{
    let mut labels: Vec<String> = Vec::new();
    labels.push("Custom path".to_owned());
    if has_sibling {
        labels.push("Sibling of existing repo".to_owned());
    }
    if has_child {
        labels.push("Child of existing repo".to_owned());
    }
    assert(string_views(labels@) =~= placement_menu(has_sibling, has_child));
    labels
}

/// Which kind of placement a menu answer picked.
pub enum PlacementKind {
    Custom,
    Sibling,
    Child,
}

/// Reads the answer to the placement menu; dismissing it, or an index
/// past its end, cancels.
pub fn placement_kind_from_choice(has_sibling: bool, has_child: bool, chosen: Option<usize>)
    -> (kind: Result<PlacementKind, ReportalError>)
    ensures
        match chosen {
            None => kind matches Err(ReportalError::SelectionCancelled),
            Some(index) => if index >= placement_menu(has_sibling, has_child).len() {
                kind matches Err(ReportalError::SelectionCancelled)
            } else if placement_menu(has_sibling, has_child)[index as int]
                == "Sibling of existing repo"@ {
                kind matches Ok(PlacementKind::Sibling)
            } else if placement_menu(has_sibling, has_child)[index as int]
                == "Child of existing repo"@ {
                kind matches Ok(PlacementKind::Child)
            } else {
                kind matches Ok(PlacementKind::Custom)
            },
        },
{
    let labels = clone_placement_labels(has_sibling, has_child);
    let index = match chosen {
        Some(index) => index,
        None => {
            return Err(ReportalError::SelectionCancelled);
        },
    };
    if index >= labels.len() {
        return Err(ReportalError::SelectionCancelled);
    }
    if same_text(labels[index].as_str(), "Sibling of existing repo") {
        Ok(PlacementKind::Sibling)
    } else if same_text(labels[index].as_str(), "Child of existing repo") {
        Ok(PlacementKind::Child)
    } else {
        Ok(PlacementKind::Custom)
    }
}

/// Labels of a directory menu: `alias (directory)`.
pub open spec fn directory_choice_label(choice: (Seq<char>, Seq<char>)) -> Seq<char> {
    choice.0 + " ("@ + choice.1 + ")"@
}

/// The labels of a directory menu.
pub fn directory_choice_labels(choices: &Vec<(&str, String)>) -> (labels: Vec<String>)
    ensures
        labels@.len() == choices@.len(),
        forall|i: int|
            0 <= i < labels@.len() ==> (#[trigger] labels@[i])@ == directory_choice_label(
                (choices@[i].0@, choices@[i].1@),
            ),
{
    let mut labels: Vec<String> = Vec::new();
    let mut index: usize = 0;
    while index < choices.len()
        invariant
            index <= choices@.len(),
            labels@.len() == index,
            forall|i: int|
                0 <= i < index ==> (#[trigger] labels@[i])@ == directory_choice_label(
                    (choices@[i].0@, choices@[i].1@),
                ),
        decreases choices@.len() - index,
    {
        let mut label: Vec<char> = Vec::new();
        extend_str(&mut label, choices[index].0);
        extend_str(&mut label, " (");
        extend_str(&mut label, choices[index].1.as_str());
        extend_str(&mut label, ")");
        labels.push(string_of(label.as_slice()));
        index = index + 1;
    }
    labels
}

/// The destination a directory menu answer picked; dismissing it, or an
/// index past its end, cancels.
pub fn destination_from_choice(kind: PlacementKind, choices: &Vec<(&str, String)>, chosen: Option<
    usize,
>) -> (destination: Result<CloneDestination, ReportalError>)
    ensures
        kind is Custom ==> destination matches Ok(CloneDestination::CustomPath),
        !(kind is Custom) ==> match chosen {
            Some(index) if index < choices@.len() => match kind {
                PlacementKind::Sibling => destination matches Ok(CloneDestination::SiblingOf(
                    directory,
                )) && directory@ == choices@[index as int].1@,
                _ => destination matches Ok(CloneDestination::ChildOf(directory)) && directory@
                    == choices@[index as int].1@,
            },
            _ => destination matches Err(ReportalError::SelectionCancelled),
        },
{
    match kind {
        PlacementKind::Custom => Ok(CloneDestination::CustomPath),
        PlacementKind::Sibling => match chosen {
            Some(index) if index < choices.len() => Ok(
                CloneDestination::SiblingOf(choices[index].1.clone()),
            ),
            _ => Err(ReportalError::SelectionCancelled),
        },
        PlacementKind::Child => match chosen {
            Some(index) if index < choices.len() => Ok(
                CloneDestination::ChildOf(choices[index].1.clone()),
            ),
            _ => Err(ReportalError::SelectionCancelled),
        },
    }
}

/// Where a clone lands: the destination directory joined with the
/// suggested alias.
pub fn cloned_repo_path(clone_parent: &str, suggested_alias: &str) -> (path: String)
    ensures
        path@ == join_path(clone_parent@, suggested_alias@),
{
    let parent_chars = chars_of(clone_parent);
    let alias_chars = chars_of(suggested_alias);
    let joined = join_paths(parent_chars.as_slice(), alias_chars.as_slice());
    string_of(joined.as_slice())
}

// ---------------------------------------------------------------------
// Git
// ---------------------------------------------------------------------

/// A `git clone` of a URL into a directory.
pub struct GitCloneOperation<'a> {
    pub git_url: &'a str,
    pub target_directory: &'a str,
}

/// How running a child process went: it could not start (with the
/// reason), or it exited (successfully or not, with its status text).
pub enum ProcessRun {
    SpawnFailed(String),
    Exited { success: bool, status_text: String },
}

impl<'a> GitCloneOperation<'a> {
    /// The outcome of the clone: success, or `ConfigIoFailure` naming the
    /// exit status or the reason git could not run.
    pub fn clone_outcome(&self, run: ProcessRun) -> (outcome: Result<(), ReportalError>)
        ensures
            match run {
                ProcessRun::Exited { success: true, .. } => outcome is Ok,
                ProcessRun::Exited { success: false, status_text } => outcome matches Err(
                    ReportalError::ConfigIoFailure { reason },
                ) && reason@ == "git clone exited with status "@ + status_text@,
                ProcessRun::SpawnFailed(why) => outcome matches Err(
                    ReportalError::ConfigIoFailure { reason },
                ) && reason@ == "Failed to run git: "@ + why@,
            },
    {
        match run {
            ProcessRun::Exited { success, status_text } => {
                if success {
                    Ok(())
                } else {
                    let mut reason: Vec<char> = Vec::new();
                    extend_str(&mut reason, "git clone exited with status ");
                    extend_str(&mut reason, status_text.as_str());
                    Err(ReportalError::ConfigIoFailure { reason: string_of(reason.as_slice()) })
                }
            },
            ProcessRun::SpawnFailed(why) => {
                let mut reason: Vec<char> = Vec::new();
                extend_str(&mut reason, "Failed to run git: ");
                extend_str(&mut reason, why.as_str());
                Err(ReportalError::ConfigIoFailure { reason: string_of(reason.as_slice()) })
            },
        }
    }
}

/// What `git remote get-url origin` told about a directory.
pub enum GitRemoteDetection {
    /// The origin URL.
    Found(String),
    /// Git ran but there is no usable origin.
    NoOriginConfigured,
    /// Git could not be started.
    GitUnavailable,
}

/// Reads the run of `git remote get-url origin`: its trimmed output when
/// it succeeded with output, no origin when it failed or printed nothing,
/// and unavailable when git did not start.
pub fn remote_detection_from_git_run(started: bool, succeeded: bool, standard_output: &str) -> (detection:
    GitRemoteDetection)
    ensures
        !started ==> detection is GitUnavailable,
        started && (!succeeded || trim(standard_output@).len() == 0) ==> detection is NoOriginConfigured,
        started && succeeded && trim(standard_output@).len() > 0 ==> (detection matches GitRemoteDetection::Found(
            url,
        ) && url@ == trim(standard_output@)),
{
    if !started {
        return GitRemoteDetection::GitUnavailable;
    }
    if !succeeded {
        return GitRemoteDetection::NoOriginConfigured;
    }
    let text = chars_of(standard_output);
    let cleaned = trimmed(text.as_slice());
    if cleaned.len() == 0 {
        GitRemoteDetection::NoOriginConfigured
    } else {
        GitRemoteDetection::Found(string_of(cleaned.as_slice()))
    }
}

/// The remote to pre-fill: the detected origin, or empty.
pub fn detected_remote_text(detection: GitRemoteDetection) -> (remote: String)
    ensures
        match detection {
            GitRemoteDetection::Found(url) => remote@ == url@,
            _ => remote@.len() == 0,
        },
{
    match detection {
        GitRemoteDetection::Found(url) => url,
        _ => String::new(),
    }
}

// ---------------------------------------------------------------------
// Registration
// ---------------------------------------------------------------------

/// The answers collected for a new repository.
pub struct RegistrationAnswers {
    pub alias: String,
    pub description: String,
    pub tags_input: String,
    pub remote: String,
    pub tab_title: String,
    pub color: ColorPromptResult,
}

/// A pending registration: where the repository lives, and the alias and
/// remote to pre-fill.
pub struct RegistrationContext<'a> {
    pub filesystem_path: &'a str,
    pub suggested_alias: String,
    pub detected_remote: String,
}

/// The entry the answers describe for a repository at `path`.
pub open spec fn registered_entry(entry: RepoEntry, path: Seq<char>, answers: RegistrationAnswers) -> bool {
    &&& entry.path@ == path
    &&& entry.description@ == answers.description@
    &&& string_views(entry.tags@) == kept_tags(split_on(answers.tags_input@, ','))
    &&& entry.remote@ == answers.remote@
    &&& (if answers.tab_title@.len() == 0 {
        entry.title is UseAlias
    } else {
        entry.title matches TabTitle::Custom(title) && title@ == answers.tab_title@
    })
    &&& match answers.color {
        ColorPromptResult::Provided(color) => entry.color matches RepoColor::Themed(chosen) && chosen@
            == color@,
        ColorPromptResult::Skipped => entry.color is ResetToDefault,
    }
    &&& entry.aliases@.len() == 0
    &&& entry.shell_alias == crate::config::ShellAliasExport::Disabled
    &&& entry.commands@.len() == 0
}

impl<'a> RegistrationContext<'a> {
    /// Registers the repository under the answered alias; fails with
    /// `RepoAlreadyRegistered` when the alias is taken.
    pub fn register_answers(&self, loaded_config: &mut ReportalConfig, answers: RegistrationAnswers)
        -> (registered: Result<String, ReportalError>)
        requires
            old(loaded_config).wf(),
        ensures
            final(loaded_config).wf(),
            crate::config::same_settings(*final(loaded_config), *old(loaded_config)),
            final(loaded_config).workspaces == old(loaded_config).workspaces,
            registered is Ok <==> key_position(old(loaded_config).repos@, answers.alias@) is None,
            registered matches Ok(alias) ==> alias@ == answers.alias@ && exists|position: int, entry: RepoEntry|
                0 <= position <= old(loaded_config).repos@.len() && registered_entry(
                    entry,
                    self.filesystem_path@,
                    answers,
                ) && final(loaded_config).repos@ == old(loaded_config).repos@.insert(
                    position,
                    (answers.alias, entry),
                ),
            registered matches Err(error) ==> final(loaded_config).repos@ == old(loaded_config).repos@
                && (error matches ReportalError::RepoAlreadyRegistered { alias } && alias@ == answers.alias@),
    {
        let tags = parse_comma_separated_tags(answers.tags_input.as_str());
        let title = if answers.tab_title.as_str().is_empty() {
            TabTitle::UseAlias
        } else {
            TabTitle::Custom(answers.tab_title)
        };
        let color = match answers.color {
            ColorPromptResult::Provided(hex_color) => RepoColor::Themed(hex_color),
            ColorPromptResult::Skipped => RepoColor::ResetToDefault,
        };
        let mut entry = RepoEntry::at_path(self.filesystem_path.to_owned());
        entry.description = answers.description;
        entry.tags = tags;
        entry.remote = answers.remote;
        entry.title = title;
        entry.color = color;
        let display_alias = answers.alias.clone();
        match loaded_config.add_repo(answers.alias, entry) {
            Ok(()) => Ok(display_alias),
            Err(error) => Err(error),
        }
    }
}

} // verus!
