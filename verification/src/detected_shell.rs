//! The user's shell profile and the integration script: which profile to
//! edit, the script text, and how an old integration is taken out of a
//! profile before the new `source` line goes in.

use vstd::prelude::*;
use crate::home::home_view;
use crate::paths::join_path;
use crate::text::{
    chars_of, contains_str, extend_chars, extend_str, has_prefix, has_substring, join, join_chars,
    lemma_lines_have_no_line_feed, lemma_lines_of_cons, lemma_lines_of_joined, lines_of, split_lines,
    starts_with_str, string_of, trim, trim_end, trim_start, trimmed, views, without_carriage_return,
};

verus! {

/// The shell whose profile gets the integration, with that profile.
pub enum DetectedShell {
    PowerShell(String),
    Bash(String),
    Zsh(String),
    Unknown,
}

/// A zsh profile when `SHELL` mentions zsh, else a bash profile; unknown
/// without `SHELL` or a home directory.
pub open spec fn detected_shell_of(shell_variable: Option<Seq<char>>, home: Option<Seq<char>>) -> Option<
    (bool, Seq<char>),
> {
    match (shell_variable, home) {
        (Some(shell), Some(directory)) => if has_substring(shell, "zsh"@) {
            Some((true, join_path(directory, ".zshrc"@)))
        } else {
            Some((false, join_path(directory, ".bashrc"@)))
        },
        _ => None,
    }
}

impl DetectedShell {
    /// The shell from `SHELL` and the home directory.
    pub fn detect(shell_variable: Option<&str>, home: &Option<String>) -> (detected: DetectedShell)
        ensures
            match detected_shell_of(
                match shell_variable {
                    Some(shell) => Some(shell@),
                    None => None,
                },
                home_view(*home),
            ) {
                Some((true, profile)) => detected matches DetectedShell::Zsh(path) && path@ == profile,
                Some((false, profile)) => detected matches DetectedShell::Bash(path) && path@ == profile,
                None => detected is Unknown,
            },
    {
        match (shell_variable, home) {
            (Some(shell_path), Some(home_path)) => {
                let shell_chars = chars_of(shell_path);
                let home_chars = chars_of(home_path.as_str());
                let mut file_name: Vec<char> = Vec::new();
                if contains_str(shell_chars.as_slice(), "zsh") {
                    extend_str(&mut file_name, ".zshrc");
                    let joined = crate::paths::join_paths(home_chars.as_slice(), file_name.as_slice());
                    DetectedShell::Zsh(string_of(joined.as_slice()))
                } else {
                    extend_str(&mut file_name, ".bashrc");
                    let joined = crate::paths::join_paths(home_chars.as_slice(), file_name.as_slice());
                    DetectedShell::Bash(string_of(joined.as_slice()))
                }
            },
            _ => DetectedShell::Unknown,
        }
    }

    /// The profile to edit, if any.
    pub fn profile_path(&self) -> (profile: Option<&String>)
        ensures
            match self {
                DetectedShell::PowerShell(path) => profile == Some(path),
                DetectedShell::Bash(path) => profile == Some(path),
                DetectedShell::Zsh(path) => profile == Some(path),
                DetectedShell::Unknown => profile is None,
            },
    {
        match self {
            DetectedShell::PowerShell(shell_profile_path) => Some(shell_profile_path),
            DetectedShell::Bash(shell_profile_path) => Some(shell_profile_path),
            DetectedShell::Zsh(shell_profile_path) => Some(shell_profile_path),
            DetectedShell::Unknown => None,
        }
    }
}

/// `integration.sh` in the configuration directory.
pub fn integration_file_path(config_directory: &str) -> (path: String)
    ensures
        path@ == join_path(config_directory@, "integration.sh"@),
{
    let directory = chars_of(config_directory);
    let mut file_name: Vec<char> = Vec::new();
    extend_str(&mut file_name, "integration.sh");
    string_of(crate::paths::join_paths(directory.as_slice(), file_name.as_slice()).as_slice())
}

// ---------------------------------------------------------------------
// Recognising an old integration
// ---------------------------------------------------------------------

/// A trimmed line that defines one of the integration's functions.
pub open spec fn is_function_line(t: Seq<char>) -> bool {
    has_prefix(t, "function rj"@) || has_prefix(t, "function ro"@) || has_prefix(t, "function rw"@)
        || has_prefix(t, "function rr"@) || has_prefix(t, "function repup"@) || has_prefix(
        t,
        "function global:rj"@,
    ) || has_prefix(t, "function global:ro"@) || has_prefix(t, "function global:rw"@) || has_prefix(
        t,
        "function global:rr"@,
    ) || has_prefix(t, "rj()"@) || has_prefix(t, "ro()"@) || has_prefix(t, "rw()"@) || has_prefix(
        t,
        "rr()"@,
    ) || has_prefix(t, "repup()"@)
}

/// Whether a trimmed line defines one of the integration's functions.
pub fn is_reportal_function_line(t: &[char]) -> (answer: bool)
    ensures
        answer == is_function_line(t@),
{
    starts_with_str(t, "function rj") || starts_with_str(t, "function ro") || starts_with_str(
        t,
        "function rw",
    ) || starts_with_str(t, "function rr") || starts_with_str(t, "function repup")
        || starts_with_str(t, "function global:rj") || starts_with_str(t, "function global:ro")
        || starts_with_str(t, "function global:rw") || starts_with_str(t, "function global:rr")
        || starts_with_str(t, "rj()") || starts_with_str(t, "ro()") || starts_with_str(t, "rw()")
        || starts_with_str(t, "rr()") || starts_with_str(t, "repup()")
}

/// Inside an integration block: a line that still belongs to it.
pub open spec fn is_block_line(t: Seq<char>) -> bool {
    is_function_line(t) || has_prefix(t, "function prompt"@) || has_prefix(t, "function global:prompt"@)
        || has_prefix(t, "$_reportal_"@) || has_prefix(t, "$script:_reportal_"@) || has_prefix(
        t,
        "PROMPT_COMMAND"@,
    ) || has_substring(t, "REPORTAL_LOADED"@) || has_substring(t, "rep jump"@) || has_substring(
        t,
        "rep open"@,
    ) || has_substring(t, "rep web"@) || has_substring(t, "rep run"@) || has_substring(
        t,
        "rep upgrade"@,
    ) || has_substring(t, "rep color"@)
}

/// A line that opens an integration block.
pub open spec fn is_block_marker(line: Seq<char>) -> bool {
    has_substring(line, "RePortal shell integration"@) || has_substring(line, ".reportal/integration"@)
}

/// Outside a block: a leftover function of an older integration, or a
/// comment about it.
pub open spec fn is_stale_line(t: Seq<char>) -> bool {
    is_function_line(t) || has_substring(t, "reportal jump"@) || has_substring(t, "reportal open"@)
        || has_substring(t, "reportal web"@) || has_substring(t, "reportal run"@) || (has_prefix(
        t,
        "#"@,
    ) && has_substring(t, "RePortal"@))
}

/// One line through the filter: inside a block, block lines are dropped
/// and the first other line ends the block (kept unless blank); outside,
/// a marker opens a block and is dropped, stale lines are dropped, and the
/// rest is kept.
pub open spec fn strip_step(state: (Seq<Seq<char>>, bool), line: Seq<char>) -> (Seq<Seq<char>>, bool) {
    let (kept, skipping) = state;
    let t = trim(line);
    if skipping {
        if is_block_line(t) {
            (kept, true)
        } else if t.len() == 0 {
            (kept, false)
        } else {
            (kept.push(line), false)
        }
    } else if is_block_marker(line) {
        (kept, true)
    } else if is_stale_line(t) {
        (kept, false)
    } else {
        (kept.push(line), false)
    }
}

/// The filter run over the lines in order.
pub open spec fn strip_lines(lines: Seq<Seq<char>>) -> (Seq<Seq<char>>, bool)
    decreases lines.len(),
{
    if lines.len() == 0 {
        (Seq::empty(), false)
    } else {
        strip_step(strip_lines(lines.drop_last()), lines.last())
    }
}

/// The profile without any integration, its kept lines joined by `\n`.
pub open spec fn stripped_profile(content: Seq<char>) -> Seq<char> {
    join(strip_lines(lines_of(content)).0, seq!['\n'])
}

fn block_line(t: &[char]) -> (answer: bool)
    ensures
        answer == is_block_line(t@),
{
    is_reportal_function_line(t) || starts_with_str(t, "function prompt") || starts_with_str(
        t,
        "function global:prompt",
    ) || starts_with_str(t, "$_reportal_") || starts_with_str(t, "$script:_reportal_")
        || starts_with_str(t, "PROMPT_COMMAND") || contains_str(t, "REPORTAL_LOADED") || contains_str(
        t,
        "rep jump",
    ) || contains_str(t, "rep open") || contains_str(t, "rep web") || contains_str(t, "rep run")
        || contains_str(t, "rep upgrade") || contains_str(t, "rep color")
}

fn block_marker(line: &[char]) -> (answer: bool)
    ensures
        answer == is_block_marker(line@),
{
    contains_str(line, "RePortal shell integration") || contains_str(line, ".reportal/integration")
}

fn stale_line(t: &[char]) -> (answer: bool)
    ensures
        answer == is_stale_line(t@),
{
    is_reportal_function_line(t) || contains_str(t, "reportal jump") || contains_str(t, "reportal open")
        || contains_str(t, "reportal web") || contains_str(t, "reportal run") || (starts_with_str(
        t,
        "#",
    ) && contains_str(t, "RePortal"))
}

/// Removes a previous integration from a profile: the marker line and the
/// block under it, and stray functions or comments of older versions; the
/// remaining lines are joined by `\n`.
pub fn strip_existing_integration(profile_content: &str) -> (cleaned: String)
    ensures
        cleaned@ == stripped_profile(profile_content@),
{
    let content = chars_of(profile_content);
    let lines = split_lines(content.as_slice());
    let ghost line_views = views(lines@);
    let mut kept: Vec<Vec<char>> = Vec::new();
    let mut skipping_reportal_block = false;
    let mut index: usize = 0;
    while index < lines.len()
        invariant
            line_views == views(lines@),
            line_views == lines_of(profile_content@),
            index <= lines@.len(),
            (views(kept@), skipping_reportal_block) == strip_lines(line_views.take(index as int)),
        decreases lines@.len() - index,
    {
        let line = &lines[index];
        let t = trimmed(line.as_slice());
        let ghost prefix = line_views.take(index + 1);
        assert(prefix.drop_last() =~= line_views.take(index as int));
        assert(prefix.last() == line@);
        let ghost before = kept@;
        if skipping_reportal_block {
            if !block_line(t.as_slice()) {
                skipping_reportal_block = false;
                if t.len() > 0 {
                    kept.push(line.clone());
                    assert(views(kept@) =~= views(before).push(line@));
                }
            }
        } else {
            if block_marker(line.as_slice()) {
                skipping_reportal_block = true;
            } else if !stale_line(t.as_slice()) {
                kept.push(line.clone());
                assert(views(kept@) =~= views(before).push(line@));
            }
        }
        index = index + 1;
    }
    assert(line_views.take(line_views.len() as int) =~= line_views);
    let newline = ['\n'];
    assert(newline@ =~= seq!['\n']);
    let joined = join_chars(&kept, &newline);
    string_of(joined.as_slice())
}

// ---------------------------------------------------------------------
// Scripts and profile edits
// ---------------------------------------------------------------------

/// The line a bash or zsh profile gets: `source "<script>"`.
pub open spec fn source_line(script_path: Seq<char>) -> Seq<char> {
    "source \""@ + script_path + "\""@
}

/// A profile after installation: the cleaned profile, then the source
/// line on a line of its own.
pub open spec fn updated_profile(existing: Seq<char>, script_path: Seq<char>) -> Seq<char> {
    stripped_profile(existing) + seq!['\n'] + source_line(script_path) + seq!['\n']
}

/// The new profile text for a bash or zsh profile.
pub fn unix_profile_update(existing_content: &str, script_path: &str) -> (updated: String)
    ensures
        updated@ == updated_profile(existing_content@, script_path@),
{
    let cleaned = strip_existing_integration(existing_content);
    let mut text: Vec<char> = Vec::new();
    extend_str(&mut text, cleaned.as_str());
    text.push('\n');
    extend_str(&mut text, "source \"");
    extend_str(&mut text, script_path);
    extend_str(&mut text, "\"");
    text.push('\n');
    assert(text@ =~= updated_profile(existing_content@, script_path@));
    string_of(text.as_slice())
}

/// A line the filter keeps unchanged outside a block: no marker, no stale
/// function or comment.
pub open spec fn is_plain_line(line: Seq<char>) -> bool {
    !is_block_marker(line) && !is_stale_line(trim(line))
}

/// An empty line is plain.
proof fn lemma_empty_line_is_plain()
    ensures
        is_plain_line(Seq::<char>::empty()),
{
    let empty = Seq::<char>::empty();
    assert(trim_start(empty) == empty);
    assert(trim_end(empty) == empty);
    reveal_strlit("RePortal shell integration");
    reveal_strlit(".reportal/integration");
    reveal_strlit("function rj");
    reveal_strlit("function ro");
    reveal_strlit("function rw");
    reveal_strlit("function rr");
    reveal_strlit("function repup");
    reveal_strlit("function global:rj");
    reveal_strlit("function global:ro");
    reveal_strlit("function global:rw");
    reveal_strlit("function global:rr");
    reveal_strlit("rj()");
    reveal_strlit("ro()");
    reveal_strlit("rw()");
    reveal_strlit("rr()");
    reveal_strlit("repup()");
    reveal_strlit("reportal jump");
    reveal_strlit("reportal open");
    reveal_strlit("reportal web");
    reveal_strlit("reportal run");
    reveal_strlit("#");
}

/// Plain lines pass the filter untouched, and it ends outside a block.
proof fn lemma_plain_lines_pass(lines: Seq<Seq<char>>)
    requires
        forall|i: int| 0 <= i < lines.len() ==> is_plain_line(#[trigger] lines[i]),
    ensures
        strip_lines(lines) == (lines, false),
    decreases lines.len(),
{
    if lines.len() > 0 {
        let init = lines.drop_last();
        assert forall|i: int| 0 <= i < init.len() implies is_plain_line(#[trigger] init[i]) by {
            assert(init[i] == lines[i]);
        }
        lemma_plain_lines_pass(init);
        assert(is_plain_line(lines[lines.len() - 1]));
        assert(init.push(lines.last()) =~= lines);
    }
}

/// The filter keeps only lines it was given, so none holds a line feed
/// when none of the input did.
proof fn lemma_kept_lines_have_no_line_feed(lines: Seq<Seq<char>>)
    requires
        forall|i: int| 0 <= i < lines.len() ==> !(#[trigger] lines[i]).contains('\n'),
    ensures
        forall|i: int| 0 <= i < strip_lines(lines).0.len() ==> !(#[trigger] strip_lines(lines).0[i]).contains('\n'),
    decreases lines.len(),
{
    if lines.len() > 0 {
        let init = lines.drop_last();
        assert forall|i: int| 0 <= i < init.len() implies !(#[trigger] init[i]).contains('\n') by {
            assert(init[i] == lines[i]);
        }
        lemma_kept_lines_have_no_line_feed(init);
        assert(!lines[lines.len() - 1].contains('\n'));
        let before = strip_lines(init).0;
        let after = strip_lines(lines).0;
        assert forall|i: int| 0 <= i < after.len() implies !(#[trigger] after[i]).contains('\n') by {
            if i < before.len() {
                assert(after[i] == before[i]);
            } else {
                assert(after[i] == lines.last());
            }
        }
    }
}

/// `kept` is `lines` with some lines left out, the rest in their order.
pub open spec fn is_subsequence(kept: Seq<Seq<char>>, lines: Seq<Seq<char>>) -> bool
    decreases lines.len(),
{
    if lines.len() == 0 {
        kept.len() == 0
    } else if kept.len() > 0 && kept.last() == lines.last() && is_subsequence(kept.drop_last(), lines.drop_last()) {
        true
    } else {
        is_subsequence(kept, lines.drop_last())
    }
}

/// Stripping only leaves lines out: what it keeps is the profile's lines
/// in their order, and none of them defines an integration function.
pub proof fn lemma_strip_keeps_lines_in_order(lines: Seq<Seq<char>>)
    ensures
        is_subsequence(strip_lines(lines).0, lines),
        forall|i: int|
            0 <= i < strip_lines(lines).0.len() ==> !is_function_line(trim(#[trigger] strip_lines(lines).0[i])),
    decreases lines.len(),
{
    if lines.len() > 0 {
        let init = lines.drop_last();
        lemma_strip_keeps_lines_in_order(init);
        let before = strip_lines(init).0;
        let after = strip_lines(lines).0;
        if after.len() == before.len() + 1 {
            assert(after.drop_last() =~= before);
            assert(after.last() == lines.last());
        } else {
            assert(after == before);
        }
        assert forall|i: int| 0 <= i < after.len() implies !is_function_line(trim(#[trigger] after[i])) by {
            if i < before.len() {
                assert(after[i] == before[i]);
            }
        }
    } else {
        assert(strip_lines(lines).0 =~= Seq::<Seq<char>>::empty());
    }
}

/// A line the user wrote: not blank, not a marker, and neither a stale
/// integration line nor one that could belong to an integration block.
pub open spec fn is_user_line(line: Seq<char>) -> bool {
    &&& trim(line).len() > 0
    &&& !is_block_marker(line)
    &&& !is_stale_line(trim(line))
    &&& !is_block_line(trim(line))
}

/// The user's lines among `lines`, in their order.
pub open spec fn user_lines(lines: Seq<Seq<char>>) -> Seq<Seq<char>>
    decreases lines.len(),
{
    if lines.len() == 0 {
        Seq::empty()
    } else if is_user_line(lines.last()) {
        user_lines(lines.drop_last()).push(lines.last())
    } else {
        user_lines(lines.drop_last())
    }
}

/// Stripping removes only integration lines: every line the user wrote,
/// including one that ends an integration block, is still there, in its
/// order, and no line the user wrote is duplicated.
pub proof fn lemma_strip_keeps_every_user_line(lines: Seq<Seq<char>>)
    ensures
        user_lines(strip_lines(lines).0) == user_lines(lines),
    decreases lines.len(),
{
    if lines.len() > 0 {
        let init = lines.drop_last();
        let line = lines.last();
        lemma_strip_keeps_every_user_line(init);
        let before = strip_lines(init).0;
        let after = strip_lines(lines).0;
        if after.len() == before.len() + 1 {
            assert(after == before.push(line));
            assert(after.drop_last() =~= before);
            assert(after.last() == line);
        } else {
            assert(after == before);
            assert(!is_user_line(line));
        }
    } else {
        assert(strip_lines(lines).0 =~= Seq::<Seq<char>>::empty());
    }
}

/// The lines that are not stale integration lines, in their order.
pub open spec fn lines_without_stale(lines: Seq<Seq<char>>) -> Seq<Seq<char>>
    decreases lines.len(),
{
    if lines.len() == 0 {
        Seq::empty()
    } else if is_stale_line(trim(lines.last())) {
        lines_without_stale(lines.drop_last())
    } else {
        lines_without_stale(lines.drop_last()).push(lines.last())
    }
}

/// A profile with no integration marker loses only its stale integration
/// lines: every other line, blank ones included, is kept in its order.
pub proof fn lemma_strip_without_marker(lines: Seq<Seq<char>>)
    requires
        forall|i: int| 0 <= i < lines.len() ==> !is_block_marker(#[trigger] lines[i]),
    ensures
        strip_lines(lines) == (lines_without_stale(lines), false),
    decreases lines.len(),
{
    if lines.len() > 0 {
        let init = lines.drop_last();
        assert forall|i: int| 0 <= i < init.len() implies !is_block_marker(#[trigger] init[i]) by {
            assert(init[i] == lines[i]);
        }
        lemma_strip_without_marker(init);
        assert(!is_block_marker(lines[lines.len() - 1]));
    }
}

/// A profile without any integration line is kept whole: stripping it
/// only rejoins its lines with `\n`.
pub proof fn lemma_strip_keeps_plain_profile(content: Seq<char>)
    requires
        forall|i: int| 0 <= i < lines_of(content).len() ==> is_plain_line(#[trigger] lines_of(content)[i]),
    ensures
        stripped_profile(content) == join(lines_of(content), seq!['\n']),
{
    lemma_plain_lines_pass(lines_of(content));
}

/// Installing twice leaves the profile as installing once: the source
/// line the first installation appended is recognised as a marker and
/// replaced, and every other line is kept. This holds when the script path
/// is the integration script's (its source line is a marker) and holds no
/// line feed, and when no line the first installation kept would be
/// dropped by a second pass (a marker, a stale function or comment) or
/// ends with a carriage return.
pub proof fn lemma_reinstall_changes_nothing(existing: Seq<char>, script_path: Seq<char>)
    requires
        is_block_marker(source_line(script_path)),
        !script_path.contains('\n'),
        forall|i: int|
            0 <= i < strip_lines(lines_of(existing)).0.len() ==> is_plain_line(
                #[trigger] strip_lines(lines_of(existing)).0[i],
            ) && without_carriage_return(strip_lines(lines_of(existing)).0[i])
                == strip_lines(lines_of(existing)).0[i],
    ensures
        updated_profile(updated_profile(existing, script_path), script_path) == updated_profile(
            existing,
            script_path,
        ),
{
    let kept = strip_lines(lines_of(existing)).0;
    let source = source_line(script_path);
    let newline = seq!['\n'];
    let empty = Seq::<char>::empty();
    reveal_strlit("source \"");
    reveal_strlit("\"");
    assert(!source.contains('\n')) by {
        if source.contains('\n') {
            let k = choose|k: int| 0 <= k < source.len() && source[k] == '\n';
            assert(script_path[k - 8] == '\n');
        }
    }
    assert(without_carriage_return(source) == source);
    lemma_lines_of_cons(source, empty);
    assert(lines_of(empty) =~= Seq::<Seq<char>>::empty());
    assert(source + newline + empty =~= source + newline);
    assert(lines_of(source + newline) =~= seq![source]);
    let once = updated_profile(existing, script_path);
    if kept.len() == 0 {
        assert(join(kept, newline) =~= empty);
        assert(once =~= empty + newline + (source + newline));
        lemma_lines_of_cons(empty, source + newline);
        assert(without_carriage_return(empty) =~= empty);
        let lines = seq![empty, source];
        assert(lines_of(once) =~= lines);
        lemma_empty_line_is_plain();
        assert(lines.drop_last() =~= seq![empty]);
        lemma_plain_lines_pass(seq![empty]);
        assert(strip_lines(lines) == (seq![empty], true));
        assert(stripped_profile(once) =~= empty);
    } else {
        lemma_lines_have_no_line_feed(existing);
        lemma_kept_lines_have_no_line_feed(lines_of(existing));
        lemma_lines_of_joined(kept, source + newline);
        assert(once =~= join(kept, newline) + newline + (source + newline));
        assert(lines_of(once) =~= kept + seq![source]);
        lemma_plain_lines_pass(kept);
        assert((kept + seq![source]).drop_last() =~= kept);
        assert(strip_lines(kept + seq![source]) == (kept, true));
        assert(stripped_profile(once) == join(kept, newline));
    }
}

/// A PowerShell profile after installation: unchanged when nothing was
/// stripped; otherwise the cleaned text without trailing whitespace plus
/// one newline, or empty when nothing is left.
pub open spec fn rewritten_powershell_profile(existing: Seq<char>) -> Option<Seq<char>> {
    let cleaned = stripped_profile(existing);
    if cleaned == existing {
        None
    } else if trim_end(cleaned).len() == 0 {
        Some(Seq::empty())
    } else {
        Some(trim_end(cleaned) + seq!['\n'])
    }
}

/// The text to write back to a PowerShell profile, if it changes.
pub fn powershell_profile_update(existing_content: &str) -> (rewritten: Option<String>)
    ensures
        match rewritten_powershell_profile(existing_content@) {
            Some(text) => rewritten matches Some(new_text) && new_text@ == text,
            None => rewritten is None,
        },
{
    let cleaned = strip_existing_integration(existing_content);
    if crate::config::same_text(cleaned.as_str(), existing_content) {
        return None;
    }
    let cleaned_chars = chars_of(cleaned.as_str());
    let trimmed_profile = crate::text::trimmed_end(cleaned_chars.as_slice());
    if trimmed_profile.len() == 0 {
        return Some(String::new());
    }
    let mut text: Vec<char> = Vec::new();
    extend_chars(&mut text, trimmed_profile.as_slice());
    text.push('\n');
    Some(string_of(text.as_slice()))
}

/// The bash/zsh integration script for a version.
pub open spec fn bash_integration_text(version: Seq<char>) -> Seq<char> {
    "# RePortal shell integration — v"@ + version + r#"
# Do not edit; regenerated by 'rep init'.
export REPORTAL_LOADED=1
rj() { cd "$(rep jump "$@")"; rep color; }
ro() { rep open "$@"; rep color; }
rw() { rep web "$@"; }
rr() { rep run "$@"; }
_reportal_hook() { local _t; _t=$(rep color --print-title 2>/dev/null); [ -n "$_t" ] && printf '\033]2;%s\007' "$_t"; }
PROMPT_COMMAND="${PROMPT_COMMAND:+$PROMPT_COMMAND;}_reportal_hook"
"#@
}

/// The bash/zsh integration script.
pub fn bash_integration_content(version: &str) -> (script: String)
    ensures
        script@ == bash_integration_text(version@),
{
    let mut text: Vec<char> = Vec::new();
    extend_str(&mut text, "# RePortal shell integration — v");
    extend_str(&mut text, version);
    extend_str(
        &mut text,
        r#"
# Do not edit; regenerated by 'rep init'.
export REPORTAL_LOADED=1
rj() { cd "$(rep jump "$@")"; rep color; }
ro() { rep open "$@"; rep color; }
rw() { rep web "$@"; }
rr() { rep run "$@"; }
_reportal_hook() { local _t; _t=$(rep color --print-title 2>/dev/null); [ -n "$_t" ] && printf '\033]2;%s\007' "$_t"; }
PROMPT_COMMAND="${PROMPT_COMMAND:+$PROMPT_COMMAND;}_reportal_hook"
"#,
    );
    string_of(text.as_slice())
}

/// The PowerShell integration script for a version.
pub open spec fn powershell_integration_text(version: Seq<char>) -> Seq<char> {
    "# RePortal shell integration — v"@ + version + r#"
# Do not edit; regenerated by 'rep init'.
$env:REPORTAL_LOADED = "1"
function global:rj { Set-Location (rep jump @args); rep color }
function global:ro { rep open @args; rep color }
function global:rw { rep web @args }
function global:rr { rep run @args }
$script:_reportal_original_prompt = $function:global:prompt
function global:prompt { $p = & $script:_reportal_original_prompt; $t = rep color --print-title 2>$null; if ($t) { $Host.UI.RawUI.WindowTitle = $t }; $p }
"#@
}

/// The PowerShell integration script.
pub fn powershell_integration_content(version: &str) -> (script: String)
    ensures
        script@ == powershell_integration_text(version@),
{
    let mut text: Vec<char> = Vec::new();
    extend_str(&mut text, "# RePortal shell integration — v");
    extend_str(&mut text, version);
    extend_str(
        &mut text,
        r#"
# Do not edit; regenerated by 'rep init'.
$env:REPORTAL_LOADED = "1"
function global:rj { Set-Location (rep jump @args); rep color }
function global:ro { rep open @args; rep color }
function global:rw { rep web @args }
function global:rr { rep run @args }
$script:_reportal_original_prompt = $function:global:prompt
function global:prompt { $p = & $script:_reportal_original_prompt; $t = rep color --print-title 2>$null; if ($t) { $Host.UI.RawUI.WindowTitle = $t }; $p }
"#,
    );
    string_of(text.as_slice())
}

} // verus!
