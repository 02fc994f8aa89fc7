//! Wiring `eval "$(rep init <shell>)"` into the user's rc file on first
//! use: which shell and rc file apply, whether the block is already
//! there, the exact fenced block to append, and whether the integration
//! is loaded in this very shell rather than inherited from a parent.

use vstd::prelude::*;
use crate::cli_args::InitializeShell;
use crate::home::home_view;
use crate::paths::{file_name, file_name_of, join_path, join_paths, parent, parent_of};
use crate::text::{
    chars_of, contains_str, decimal, extend_str, has_substring, occurs_at, push_decimal, string_of,
};

verus! {

/// The line that opens the fenced block.
pub open spec fn marker_start() -> Seq<char> {
    "# >>> reportal shell integration (do not edit) >>>"@
}

/// The line that closes the fenced block.
pub open spec fn marker_end() -> Seq<char> {
    "# <<< reportal shell integration <<<"@
}

/// Whether this shell itself loaded the integration.
#[derive(PartialEq, Eq, Structural, Clone, Copy)]
pub enum AutoWireOperationLoadedState {
    LoadedInCurrentShell,
    NotLoadedInCurrentShell,
}

/// The id of this process's parent, from `rustix::process::getppid`. It
/// depends on the running process, so nothing is stated of it beyond
/// what the type gives.
#[verifier::external_body]
fn parent_process_id() -> (parent: Option<i32>) {
    rustix::process::getppid().map(|parent| parent.as_raw_nonzero().get())
}

/// A number as `i32::to_string` writes it.
pub open spec fn signed_decimal(value: int) -> Seq<char> {
    if value < 0 {
        seq!['-'] + decimal((-value) as nat)
    } else {
        decimal(value as nat)
    }
}

fn signed_decimal_text(value: i32) -> (text: Vec<char>)
    ensures
        text@ == signed_decimal(value as int),
{
    let mut text: Vec<char> = Vec::new();
    if value < 0 {
        text.push('-');
        let magnitude: i64 = -(value as i64);
        push_decimal(&mut text, magnitude as usize);
    } else {
        push_decimal(&mut text, value as usize);
    }
    text
}

impl AutoWireOperationLoadedState {
    /// Loaded here exactly when the stamped value is this process's parent
    /// id, written in decimal.
    pub fn classify_against_parent_pid(stamped_marker_value: &str, parent: Option<i32>) -> (state: Self)
        ensures
            match parent {
                None => state == AutoWireOperationLoadedState::NotLoadedInCurrentShell,
                Some(pid) => (state == AutoWireOperationLoadedState::LoadedInCurrentShell) == (
                signed_decimal(pid as int) == stamped_marker_value@),
            },
    {
        match parent {
            None => AutoWireOperationLoadedState::NotLoadedInCurrentShell,
            Some(pid) => {
                let rendered = signed_decimal_text(pid);
                let stamped = chars_of(stamped_marker_value);
                if crate::text::chars_equal(rendered.as_slice(), stamped.as_slice()) {
                    AutoWireOperationLoadedState::LoadedInCurrentShell
                } else {
                    AutoWireOperationLoadedState::NotLoadedInCurrentShell
                }
            },
        }
    }

    /// Compares the stamped value with the real parent process id. Which
    /// process that is depends on how this one was started; whatever it
    /// is, only a value that is some process id in decimal can count as
    /// loaded.
    pub fn classify_against_actual_parent_pid(stamped_marker_value: &str) -> (state: Self)
        ensures
            state == AutoWireOperationLoadedState::LoadedInCurrentShell ==> exists|pid: i32|
                #[trigger] signed_decimal(pid as int) == stamped_marker_value@,
    {
        let parent = parent_process_id();
        Self::classify_against_parent_pid(stamped_marker_value, parent)
    }
}

/// The state from the `REPORTAL_LOADED` value: not loaded without one,
/// loaded for the legacy `1`, else loaded only when it names this
/// process's parent.
pub fn current_shell_integration_loaded_state(stamped_marker_value: Option<&str>) -> (state:
    AutoWireOperationLoadedState)
    ensures
        stamped_marker_value is None ==> state == AutoWireOperationLoadedState::NotLoadedInCurrentShell,
        stamped_marker_value == Some("1") ==> state == AutoWireOperationLoadedState::LoadedInCurrentShell,
        stamped_marker_value matches Some(value) ==> (value@ != "1"@ && state
            == AutoWireOperationLoadedState::LoadedInCurrentShell ==> exists|pid: i32|
            #[trigger] signed_decimal(pid as int) == value@),
{
    match stamped_marker_value {
        None => AutoWireOperationLoadedState::NotLoadedInCurrentShell,
        Some(value) => {
            if crate::config::same_text(value, "1") {
                AutoWireOperationLoadedState::LoadedInCurrentShell
            } else {
                AutoWireOperationLoadedState::classify_against_actual_parent_pid(value)
            }
        },
    }
}

/// Whether an auto-wire attempt is due: only when the integration is not
/// loaded in this shell.
pub fn ensure_shell_integration_installed(loaded_state: AutoWireOperationLoadedState) -> (attempt:
    bool)
    ensures
        attempt == (loaded_state == AutoWireOperationLoadedState::NotLoadedInCurrentShell),
{
    match loaded_state {
        AutoWireOperationLoadedState::LoadedInCurrentShell => false,
        AutoWireOperationLoadedState::NotLoadedInCurrentShell => true,
    }
}

// ---------------------------------------------------------------------
// Shell and rc file
// ---------------------------------------------------------------------

/// ASCII lowercase of a character.
pub open spec fn ascii_lower(c: char) -> char {
    if 'A' <= c <= 'Z' {
        ((c as u32) + 32) as char
    } else {
        c
    }
}

/// ASCII lowercase of a text, as `str::to_ascii_lowercase` gives it.
pub open spec fn ascii_lowercase(s: Seq<char>) -> Seq<char> {
    s.map_values(|c: char| ascii_lower(c))
}

fn ascii_lowercase_text(s: &[char]) -> (lowered: Vec<char>)
    ensures
        lowered@ == ascii_lowercase(s@),
{
    let mut lowered: Vec<char> = Vec::new();
    let mut index: usize = 0;
    while index < s.len()
        invariant
            index <= s@.len(),
            lowered@ == ascii_lowercase(s@.take(index as int)),
        decreases s@.len() - index,
    {
        let c = s[index];
        let lower = if 'A' <= c && c <= 'Z' {
            ((c as u8) + 32) as char
        } else {
            c
        };
        lowered.push(lower);
        assert(lowered@ =~= ascii_lowercase(s@.take(index + 1)));
        index = index + 1;
    }
    assert(s@.take(s@.len() as int) =~= s@);
    lowered
}

/// The shell a basename names: `zsh`, `bash`, or `pwsh`/`powershell`.
pub open spec fn shell_named(basename: Seq<char>) -> Option<InitializeShell> {
    if basename == "zsh"@ {
        Some(InitializeShell::Zsh)
    } else if basename == "bash"@ {
        Some(InitializeShell::Bash)
    } else if basename == "pwsh"@ || basename == "powershell"@ {
        Some(InitializeShell::Powershell)
    } else {
        None
    }
}

/// The shell a lowercase basename names.
pub fn interpret_shell_basename(basename: &str) -> (shell: Option<InitializeShell>)
    ensures
        shell == shell_named(basename@),
{
    if crate::config::same_text(basename, "zsh") {
        Some(InitializeShell::Zsh)
    } else if crate::config::same_text(basename, "bash") {
        Some(InitializeShell::Bash)
    } else if crate::config::same_text(basename, "pwsh") || crate::config::same_text(
        basename,
        "powershell",
    ) {
        Some(InitializeShell::Powershell)
    } else {
        None
    }
}

/// The shell named by the `SHELL` path's final component, lowercased; on
/// this platform nothing when `SHELL` is unset.
pub open spec fn shell_of_environment(shell_variable: Option<Seq<char>>) -> Option<InitializeShell> {
    match shell_variable {
        None => None,
        Some(path) => match file_name(path) {
            Some(name) => shell_named(ascii_lowercase(name)),
            None => None,
        },
    }
}

/// The shell that `SHELL` names.
pub fn shell_from_environment(shell_variable: Option<&str>) -> (shell: Option<InitializeShell>)
    ensures
        shell == shell_of_environment(
            match shell_variable {
                Some(path) => Some(path@),
                None => None,
            },
        ),
{
    match shell_variable {
        None => None,
        Some(path) => {
            let characters = chars_of(path);
            match file_name_of(characters.as_slice()) {
                Some(name) => {
                    let lowered = ascii_lowercase_text(name.as_slice());
                    let basename = string_of(lowered.as_slice());
                    interpret_shell_basename(basename.as_str())
                },
                None => None,
            }
        },
    }
}

/// `~/Documents/PowerShell/Microsoft.PowerShell_profile.ps1`.
pub open spec fn default_profile(home: Seq<char>) -> Seq<char> {
    join_path(
        join_path(join_path(home, "Documents"@), "PowerShell"@),
        "Microsoft.PowerShell_profile.ps1"@,
    )
}

/// The rc file of a shell: `~/.zshrc`, `~/.bashrc`, or the PowerShell
/// profile (`PROFILE` when set and non-empty, else the default one).
pub open spec fn rc_file_of(shell: InitializeShell, home: Option<Seq<char>>, profile: Option<Seq<char>>) -> Option<
    Seq<char>,
> {
    match shell {
        InitializeShell::Zsh => match home {
            Some(directory) => Some(join_path(directory, ".zshrc"@)),
            None => None,
        },
        InitializeShell::Bash => match home {
            Some(directory) => Some(join_path(directory, ".bashrc"@)),
            None => None,
        },
        InitializeShell::Powershell => match profile {
            Some(path) if path.len() > 0 => Some(path),
            _ => match home {
                Some(directory) => Some(default_profile(directory)),
                None => None,
            },
        },
    }
}

fn joined_text(base: &[char], addition: &str) -> (joined: Vec<char>)
    ensures
        joined@ == join_path(base@, addition@),
{
    let addition_chars = chars_of(addition);
    join_paths(base, addition_chars.as_slice())
}

/// The rc file the integration goes into.
pub fn rc_file_for(shell: InitializeShell, home: &Option<String>, profile_variable: Option<&str>) -> (rc_file:
    Option<String>)
    ensures
        match rc_file {
            Some(path) => rc_file_of(
                shell,
                home_view(*home),
                match profile_variable {
                    Some(profile) => Some(profile@),
                    None => None,
                },
            ) == Some(path@),
            None => rc_file_of(
                shell,
                home_view(*home),
                match profile_variable {
                    Some(profile) => Some(profile@),
                    None => None,
                },
            ) is None,
        },
{
    match shell {
        InitializeShell::Zsh | InitializeShell::Bash => match home {
            Some(directory) => {
                let base = chars_of(directory.as_str());
                let file = if shell == InitializeShell::Zsh {
                    joined_text(base.as_slice(), ".zshrc")
                } else {
                    joined_text(base.as_slice(), ".bashrc")
                };
                Some(string_of(file.as_slice()))
            },
            None => None,
        },
        InitializeShell::Powershell => {
            match profile_variable {
                Some(profile) => {
                    if !profile.is_empty() {
                        return Some(profile.to_owned());
                    }
                },
                None => {},
            }
            match home {
                Some(directory) => {
                    let base = chars_of(directory.as_str());
                    let documents = joined_text(base.as_slice(), "Documents");
                    let shell_directory = joined_text(documents.as_slice(), "PowerShell");
                    let profile_path = joined_text(
                        shell_directory.as_slice(),
                        "Microsoft.PowerShell_profile.ps1",
                    );
                    Some(string_of(profile_path.as_slice()))
                },
                None => None,
            }
        },
    }
}

// ---------------------------------------------------------------------
// The fenced block
// ---------------------------------------------------------------------

/// Whether the block needs a blank line before it.
#[derive(PartialEq, Eq, Structural, Clone, Copy)]
pub enum AutoWireOperationLeadingNewlinePolicy {
    InsertSeparator,
    NoSeparator,
}

/// The line the block adds for each shell.
pub open spec fn eval_line_of(shell: InitializeShell) -> Seq<char> {
    match shell {
        InitializeShell::Zsh => "eval \"$(rep init zsh)\""@,
        InitializeShell::Bash => "eval \"$(rep init bash)\""@,
        InitializeShell::Powershell => "Invoke-Expression (& rep init powershell | Out-String)"@,
    }
}

/// The line that loads the integration.
pub fn eval_line(shell: InitializeShell) -> (line: &'static str)
    ensures
        line@ == eval_line_of(shell),
{
    match shell {
        InitializeShell::Zsh => "eval \"$(rep init zsh)\"",
        InitializeShell::Bash => "eval \"$(rep init bash)\"",
        InitializeShell::Powershell => "Invoke-Expression (& rep init powershell | Out-String)",
    }
}

/// No separator when the rc file is empty or ends with a newline.
pub open spec fn newline_policy_of(content: Seq<char>) -> AutoWireOperationLeadingNewlinePolicy {
    if content.len() == 0 || content.last() == '\n' {
        AutoWireOperationLeadingNewlinePolicy::NoSeparator
    } else {
        AutoWireOperationLeadingNewlinePolicy::InsertSeparator
    }
}

/// The separator policy for an existing rc file.
pub fn leading_newline_policy_for(existing_rc_file_content: &str) -> (policy:
    AutoWireOperationLeadingNewlinePolicy)
    ensures
        policy == newline_policy_of(existing_rc_file_content@),
{
    let characters = chars_of(existing_rc_file_content);
    if characters.len() == 0 || characters[characters.len() - 1] == '\n' {
        AutoWireOperationLeadingNewlinePolicy::NoSeparator
    } else {
        AutoWireOperationLeadingNewlinePolicy::InsertSeparator
    }
}

/// The block: an optional separator newline, a newline, the start marker,
/// the eval line and the end marker, each ending a line.
pub open spec fn fenced_block(shell: InitializeShell, policy: AutoWireOperationLeadingNewlinePolicy) -> Seq<
    char,
> {
    (if policy == AutoWireOperationLeadingNewlinePolicy::InsertSeparator {
        seq!['\n']
    } else {
        Seq::empty()
    }) + seq!['\n'] + marker_start() + seq!['\n'] + eval_line_of(shell) + seq!['\n'] + marker_end()
        + seq!['\n']
}

/// Builds the block to append.
pub fn compose_fenced_block(shell: InitializeShell, leading_newline_policy: AutoWireOperationLeadingNewlinePolicy) -> (block:
    String)
    ensures
        block@ == fenced_block(shell, leading_newline_policy),
{
    let mut buffer: Vec<char> = Vec::new();
    if leading_newline_policy == AutoWireOperationLeadingNewlinePolicy::InsertSeparator {
        buffer.push('\n');
    }
    buffer.push('\n');
    extend_str(&mut buffer, "# >>> reportal shell integration (do not edit) >>>");
    buffer.push('\n');
    extend_str(&mut buffer, eval_line(shell));
    buffer.push('\n');
    extend_str(&mut buffer, "# <<< reportal shell integration <<<");
    buffer.push('\n');
    assert(buffer@ =~= fenced_block(shell, leading_newline_policy));
    string_of(buffer.as_slice())
}

/// What to do with the rc file.
pub enum InstallPlan {
    /// The block is already there.
    AlreadyPresent,
    /// Append this block (creating the file, and its directory first when
    /// `create_parent` names one).
    Append { block: String, create_parent: Option<String> },
}

/// The plan for an rc file: nothing when it already holds the start
/// marker; otherwise append the block, without a separator to a new file,
/// creating a new file's missing parent directory.
pub fn install_if_missing(
    shell: InitializeShell,
    rc_file: &str,
    existing_content: Option<&str>,
    parent_exists: bool,
) -> (plan: InstallPlan)
    ensures
        match existing_content {
            Some(content) => if has_substring(content@, marker_start()) {
                plan is AlreadyPresent
            } else {
                plan matches InstallPlan::Append { block, create_parent } && block@ == fenced_block(
                    shell,
                    newline_policy_of(content@),
                ) && create_parent is None
            },
            None => plan matches InstallPlan::Append { block, create_parent } && block@
                == fenced_block(shell, AutoWireOperationLeadingNewlinePolicy::NoSeparator) && match parent(
                rc_file@,
            ) {
                Some(directory) if directory.len() > 0 && !parent_exists => create_parent matches Some(
                    path,
                ) && path@ == directory,
                _ => create_parent is None,
            },
        },
{
    proof {
        reveal_strlit("# >>> reportal shell integration (do not edit) >>>");
    }
    match existing_content {
        Some(content) => {
            let characters = chars_of(content);
            if contains_str(characters.as_slice(), "# >>> reportal shell integration (do not edit) >>>") {
                return InstallPlan::AlreadyPresent;
            }
            let policy = leading_newline_policy_for(content);
            InstallPlan::Append { block: compose_fenced_block(shell, policy), create_parent: None }
        },
        None => {
            let rc_chars = chars_of(rc_file);
            let create_parent = match parent_of(rc_chars.as_slice()) {
                Some(directory) => if directory.len() > 0 && !parent_exists {
                    Some(string_of(directory.as_slice()))
                } else {
                    None
                },
                None => None,
            };
            InstallPlan::Append {
                block: compose_fenced_block(
                    shell,
                    AutoWireOperationLeadingNewlinePolicy::NoSeparator,
                ),
                create_parent,
            }
        },
    }
}

/// The notice after appending: where the block went and how to activate
/// it.
pub open spec fn appended_notice(rc_file: Seq<char>) -> Seq<char> {
    "RePortal: added shell integration to "@ + rc_file + " — run 'source "@ + rc_file
        + "' or open a new shell to activate."@
}

/// The notice after a failure: why, and the line to add by hand.
pub open spec fn failure_notice(reason: Seq<char>, shell: InitializeShell) -> Seq<char> {
    "RePortal: note: could not auto-wire shell integration ("@ + reason + "); add `"@
        + eval_line_of(shell) + "` to your rc file manually."@
}

/// The notice printed after appending.
pub fn report_appended(rc_file: &str) -> (notice: String)
    ensures
        notice@ == appended_notice(rc_file@),
{
    let mut text: Vec<char> = Vec::new();
    extend_str(&mut text, "RePortal: added shell integration to ");
    extend_str(&mut text, rc_file);
    extend_str(&mut text, " — run 'source ");
    extend_str(&mut text, rc_file);
    extend_str(&mut text, "' or open a new shell to activate.");
    string_of(text.as_slice())
}

/// The notice printed after a failure.
pub fn report_failure(reason: &str, shell: InitializeShell) -> (notice: String)
    ensures
        notice@ == failure_notice(reason@, shell),
{
    let mut text: Vec<char> = Vec::new();
    extend_str(&mut text, "RePortal: note: could not auto-wire shell integration (");
    extend_str(&mut text, reason);
    extend_str(&mut text, "); add `");
    extend_str(&mut text, eval_line(shell));
    extend_str(&mut text, "` to your rc file manually.");
    string_of(text.as_slice())
}

/// Which rc-file step failed.
#[derive(PartialEq, Eq, Structural, Clone, Copy)]
pub enum AutoWireOperationRcFileOperationKind {
    Read,
    CreateParentDirectory,
    Open,
    Write,
}

/// An rc-file step that failed: which, on what path, and the I/O error's
/// text.
pub struct AutoWireOperationRcFileError {
    pub operation_kind: AutoWireOperationRcFileOperationKind,
    pub rc_file_path: String,
    pub source_text: String,
}

/// The step's name as the error message shows it.
pub open spec fn operation_name(kind: AutoWireOperationRcFileOperationKind) -> Seq<char> {
    match kind {
        AutoWireOperationRcFileOperationKind::Read => "Read"@,
        AutoWireOperationRcFileOperationKind::CreateParentDirectory => "CreateParentDirectory"@,
        AutoWireOperationRcFileOperationKind::Open => "Open"@,
        AutoWireOperationRcFileOperationKind::Write => "Write"@,
    }
}

impl AutoWireOperationRcFileError {
    /// `auto-wire rc-file <step> on <path>: <error>`.
    pub fn describe(&self) -> (message: String)
        ensures
            message@ == "auto-wire rc-file "@ + operation_name(self.operation_kind) + " on "@
                + self.rc_file_path@ + ": "@ + self.source_text@,
    {
        let mut text: Vec<char> = Vec::new();
        extend_str(&mut text, "auto-wire rc-file ");
        match self.operation_kind {
            AutoWireOperationRcFileOperationKind::Read => extend_str(&mut text, "Read"),
            AutoWireOperationRcFileOperationKind::CreateParentDirectory => extend_str(
                &mut text,
                "CreateParentDirectory",
            ),
            AutoWireOperationRcFileOperationKind::Open => extend_str(&mut text, "Open"),
            AutoWireOperationRcFileOperationKind::Write => extend_str(&mut text, "Write"),
        }
        extend_str(&mut text, " on ");
        extend_str(&mut text, self.rc_file_path.as_str());
        extend_str(&mut text, ": ");
        extend_str(&mut text, self.source_text.as_str());
        string_of(text.as_slice())
    }
}

/// Auto-wiring is idempotent: once the planned block is appended to an rc
/// file, the file holds the start marker, so the next plan for it is
/// `AlreadyPresent`.
pub proof fn lemma_appended_block_is_detected(
    existing: Seq<char>,
    shell: InitializeShell,
    policy: AutoWireOperationLeadingNewlinePolicy,
)
    ensures
        has_substring(existing + fenced_block(shell, policy), marker_start()),
{
    let separator: Seq<char> = if policy == AutoWireOperationLeadingNewlinePolicy::InsertSeparator {
        seq!['\n']
    } else {
        Seq::empty()
    };
    let before = existing + separator + seq!['\n'];
    let after = seq!['\n'] + eval_line_of(shell) + seq!['\n'] + marker_end() + seq!['\n'];
    let whole = existing + fenced_block(shell, policy);
    assert(whole =~= before + marker_start() + after);
    let offset = before.len() as int;
    assert(whole.subrange(offset, offset + marker_start().len()) =~= marker_start());
    assert(occurs_at(whole, marker_start(), offset));
}

} // verus!
