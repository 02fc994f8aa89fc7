//! Keeping the shell integration script in step with the running
//! version: its first line carries the version that wrote it, and a
//! missing or differently stamped script is rewritten.

use vstd::prelude::*;
use crate::detected_shell::{bash_integration_content, bash_integration_text};
use crate::text::{
    chars_of, contains, has_substring, lines_of, occurs_at, occurs_at_position, slice_chars, split_lines, string_of,
};

verus! {

/// Whether the integration script matches the running version.
pub enum IntegrationFileState {
    /// The first line names the running version.
    Current,
    /// The script was written by another version (as its first line says).
    Outdated { file_version: String },
    /// There is no script to read.
    Missing,
}

/// The last position at which `needle` occurs in `s`, if any.
pub open spec fn last_occurrence(s: Seq<char>, needle: Seq<char>) -> Option<int> {
    if exists|p: int| occurs_at(s, needle, p) {
        Some(choose|p: int| occurs_at(s, needle, p) && forall|q: int| p < q ==> !occurs_at(s, needle, q))
    } else {
        None
    }
}

/// What `rsplit(needle).next()` yields: the text after the last
/// occurrence of `needle`, or all of `s` when it does not occur.
pub open spec fn after_last(s: Seq<char>, needle: Seq<char>) -> Seq<char> {
    match last_occurrence(s, needle) {
        Some(p) => s.skip(p + needle.len()),
        None => s,
    }
}

/// The separator before the version in the stamp line.
pub open spec fn version_separator() -> Seq<char> {
    seq!['—', ' ', 'v']
}

/// The state of a script with the given content (none when it cannot be
/// read) against the running version: an empty script is outdated with
/// version `empty`; a first line that contains the version is current;
/// otherwise the version is what follows the last `— v` in that line.
pub open spec fn integration_state_is(
    state: IntegrationFileState,
    script_content: Option<Seq<char>>,
    binary_version: Seq<char>,
) -> bool {
    match script_content {
        None => state is Missing,
        Some(content) => if lines_of(content).len() == 0 {
            state matches IntegrationFileState::Outdated { file_version } && file_version@ == "empty"@
        } else if has_substring(lines_of(content)[0], binary_version) {
            state is Current
        } else {
            state matches IntegrationFileState::Outdated { file_version } && file_version@ == after_last(
                lines_of(content)[0],
                version_separator(),
            )
        },
    }
}

/// The last occurrence is the one after which the needle does not occur.
proof fn lemma_last_occurrence_is(s: Seq<char>, needle: Seq<char>, p: int)
    requires
        occurs_at(s, needle, p),
        forall|q: int| p < q ==> !#[trigger] occurs_at(s, needle, q),
    ensures
        last_occurrence(s, needle) == Some(p),
{
    let chosen = choose|c: int| occurs_at(s, needle, c) && forall|q: int| c < q ==> !occurs_at(s, needle, q);
    if chosen < p {
        assert(!occurs_at(s, needle, p));
    } else if chosen > p {
        assert(!occurs_at(s, needle, chosen));
    }
}

/// Position of the last occurrence of `needle` in `s`.
fn last_occurrence_position(s: &[char], needle: &[char]) -> (found: Option<usize>)
    requires
        needle@.len() > 0,
    ensures
        match found {
            Some(p) => occurs_at(s@, needle@, p as int) && forall|q: int|
                p < q ==> !#[trigger] occurs_at(s@, needle@, q),
            None => forall|q: int| !#[trigger] occurs_at(s@, needle@, q),
        },
{
    let mut k: usize = 0;
    while k <= s.len()
        invariant
            k <= s@.len() + 1,
            needle@.len() > 0,
            forall|q: int| s@.len() - k < q ==> !#[trigger] occurs_at(s@, needle@, q),
        decreases s@.len() + 1 - k,
    {
        let position = s.len() - k;
        if occurs_at_position(s, needle, position) {
            return Some(position);
        }
        if k == s.len() {
            assert forall|q: int| !#[trigger] occurs_at(s@, needle@, q) by {
                if q >= 0 && q <= s@.len() - k {
                    assert(q == 0);
                }
            }
            return None;
        }
        k = k + 1;
    }
    None
}

/// The text after the last `— v` of a line, or the whole line.
fn version_after_separator(line: &[char]) -> (version: Vec<char>)
    ensures
        version@ == after_last(line@, version_separator()),
{
    let separator: Vec<char> = vec!['—', ' ', 'v'];
    assert(separator@ =~= version_separator());
    assert(separator@.len() == 3);
    let separator_slice = separator.as_slice();
    assert(separator_slice@ == version_separator());
    match last_occurrence_position(line, separator_slice) {
        Some(position) => {
            proof {
                assert(version_separator().len() == 3);
                assert(occurs_at(line@, version_separator(), position as int));
                lemma_last_occurrence_is(line@, version_separator(), position as int);
            }
            let line_length = line.len();
            let extracted = slice_chars(line, position + 3, line_length);
            assert(extracted@ =~= after_last(line@, version_separator()));
            extracted
        },
        None => {
            let extracted = slice_chars(line, 0, line.len());
            assert(extracted@ =~= after_last(line@, version_separator()));
            extracted
        },
    }
}

/// The state of the integration script, given its content (none when it
/// cannot be read) and the running version.
pub fn check_integration_file_state(script_content: Option<&str>, binary_version: &str) -> (state:
    IntegrationFileState)
    ensures
        integration_state_is(
            state,
            match script_content {
                Some(content) => Some(content@),
                None => None,
            },
            binary_version@,
        ),
{
    let content = match script_content {
        Some(content) => content,
        None => {
            return IntegrationFileState::Missing;
        },
    };
    let content_chars = chars_of(content);
    let lines = split_lines(content_chars.as_slice());
    if lines.len() == 0 {
        let empty = "empty".to_owned();
        return IntegrationFileState::Outdated { file_version: empty };
    }
    let first_line = &lines[0];
    assert(crate::text::views(lines@)[0] == first_line@);
    let version_chars = chars_of(binary_version);
    if contains(first_line.as_slice(), version_chars.as_slice()) {
        return IntegrationFileState::Current;
    }
    let extracted = version_after_separator(first_line.as_slice());
    IntegrationFileState::Outdated { file_version: string_of(extracted.as_slice()) }
}

/// The integration script to write, if any: none before the
/// configuration directory exists, none when the script is current, and
/// otherwise the bash integration script for the running version.
pub fn ensure_integration_file_current(
    config_directory_exists: bool,
    script_content: Option<&str>,
    binary_version: &str,
) -> (rewrite: Option<String>)
    ensures
        !config_directory_exists ==> rewrite is None,
        config_directory_exists ==> (rewrite is None <==> has_current_stamp(script_content, binary_version@)),
        rewrite matches Some(script) ==> script@ == bash_integration_text(binary_version@),
{
    if !config_directory_exists {
        return None;
    }
    match check_integration_file_state(script_content, binary_version) {
        IntegrationFileState::Current => None,
        _ => Some(bash_integration_content(binary_version)),
    }
}

/// The script's first line names the version.
pub open spec fn script_is_current(content: Seq<char>, binary_version: Seq<char>) -> bool {
    lines_of(content).len() > 0 && has_substring(lines_of(content)[0], binary_version)
}

/// The script exists and its first line names the running version.
pub open spec fn has_current_stamp(script_content: Option<&str>, binary_version: Seq<char>) -> bool {
    match script_content {
        Some(content) => script_is_current(content@, binary_version),
        None => false,
    }
}

/// A rewritten script is current: the next check of the script written
/// for a version finds it current (for a version without line breaks).
pub proof fn lemma_rewritten_script_is_current(binary_version: Seq<char>)
    requires
        forall|i: int| 0 <= i < binary_version.len() ==> binary_version[i] != '\n' && binary_version[i] != '\r',
    ensures
        script_is_current(bash_integration_text(binary_version), binary_version),
{
    reveal_strlit("# RePortal shell integration — v");
    reveal_strlit(
        r#"
# Do not edit; regenerated by 'rep init'.
export REPORTAL_LOADED=1
rj() { cd "$(rep jump "$@")"; rep color; }
ro() { rep open "$@"; rep color; }
rw() { rep web "$@"; }
rr() { rep run "$@"; }
_reportal_hook() { local _t; _t=$(rep color --print-title 2>/dev/null); [ -n "$_t" ] && printf '\033]2;%s\007' "$_t"; }
PROMPT_COMMAND="${PROMPT_COMMAND:+$PROMPT_COMMAND;}_reportal_hook"
"#,
    );
    let stamp = "# RePortal shell integration — v"@;
    let rest = r#"
# Do not edit; regenerated by 'rep init'.
export REPORTAL_LOADED=1
rj() { cd "$(rep jump "$@")"; rep color; }
ro() { rep open "$@"; rep color; }
rw() { rep web "$@"; }
rr() { rep run "$@"; }
_reportal_hook() { local _t; _t=$(rep color --print-title 2>/dev/null); [ -n "$_t" ] && printf '\033]2;%s\007' "$_t"; }
PROMPT_COMMAND="${PROMPT_COMMAND:+$PROMPT_COMMAND;}_reportal_hook"
"#@;
    let script = bash_integration_text(binary_version);
    assert(script == stamp + binary_version + rest);
    let q: int = (stamp.len() + binary_version.len()) as int;
    assert(rest[0] == '\n');
    assert(script[q] == '\n');
    assert forall|i: int| 0 <= i < q implies script[i] != '\n' by {
        if i < stamp.len() {
            assert(script[i] == stamp[i]);
        } else {
            assert(script[i] == binary_version[i - stamp.len()]);
        }
    }
    crate::text::lemma_first_line(script, q);
    let line = script.subrange(0, q);
    assert(line =~= stamp + binary_version);
    assert(line.last() != '\r') by {
        if binary_version.len() > 0 {
            assert(line.last() == binary_version[binary_version.len() - 1]);
        } else {
            assert(line.last() == stamp[stamp.len() - 1]);
        }
    }
    assert(line.subrange(stamp.len() as int, q) =~= binary_version);
    assert(occurs_at(line, binary_version, stamp.len() as int));
}

} // verus!
