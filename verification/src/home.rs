//! The home directory and `~` expansion of configured paths.

use vstd::prelude::*;
use crate::error::ReportalError;
use crate::paths::join_path;

verus! {

/// The home directory as plain text, when known.
pub open spec fn home_view(home: Option<String>) -> Option<Seq<char>> {
    match home {
        Some(directory) => Some(directory@),
        None => None,
    }
}

/// `~` alone or `~/...` with the home directory put in place of the `~`;
/// any other input, or an unknown home directory, leaves it unchanged.
pub open spec fn tilde_expansion(input: Seq<char>, home: Option<Seq<char>>) -> Seq<char> {
    if input.len() > 0 && input[0] == '~' && (input.len() == 1 || input[1] == '/') {
        match home {
            Some(directory) => directory + input.skip(1),
            None => input,
        }
    } else {
        input
    }
}

/// The current user's home directory, from `dirs::home_dir`, converted
/// to text (lossily where it is not Unicode). It depends on the
/// environment, so nothing is stated of it.
#[verifier::external_body]
fn home_directory() -> (home: Option<String>) {
    dirs::home_dir().map(|directory| directory.to_string_lossy().into_owned())
}

/// The text begins with `~\`.
pub open spec fn tilde_backslash(input: Seq<char>) -> bool {
    input.len() >= 2 && input[0] == '~' && input[1] == '\\'
}

/// `shellexpand::tilde_with_context` with the given home directory: it
/// replaces a leading `~` that stands alone or before `/` by the home
/// directory and returns any other input unchanged. On Windows targets the
/// source also expands `~\`; such input is never passed here, so the
/// contract holds on every target.
#[verifier::external_body]
fn tilde_with_home(input: &str, home: Option<String>) -> (expanded: String)
    requires
        !tilde_backslash(input@),
    ensures
        expanded@ == tilde_expansion(input@, home_view(home)),
{
    shellexpand::tilde_with_context(input, move || home).into_owned()
}

fn starts_with_tilde_backslash(input: &str) -> (found: bool)
    ensures
        found == tilde_backslash(input@),
{
    let characters = crate::text::chars_of(input);
    characters.len() >= 2 && characters[0] == '~' && characters[1] == '\\'
}

/// The current user's home directory, when the environment gives one.
pub fn current_home() -> (home: Option<String>) {
    home_directory()
}

/// Expands a leading `~` with the given home directory. A `~\` in front
/// is left as it is, as on every target this library builds for (its
/// parent-process lookup exists on Unix-like targets only).
pub fn expand_tilde_with_home(input: &str, home: &Option<String>) -> (expanded: String)
    ensures
        expanded@ == tilde_expansion(input@, home_view(*home)),
{
    if starts_with_tilde_backslash(input) {
        return input.to_owned();
    }
    tilde_with_home(input, home.clone())
}

/// Expands a leading `~` with the current user's home directory: the
/// input unchanged, or the input with some home directory in place of
/// the `~`.
pub fn expand_tilde(input: &str) -> (expanded: String)
    ensures
        exists|home: Option<Seq<char>>| expanded@ == tilde_expansion(input@, home),
{
    let home = home_directory();
    expand_tilde_with_home(input, &home)
}

/// `.reportal/workspaces` under the home directory: where workspaces live
/// unless one names its own directory.
pub open spec fn default_workspace_root(home: Seq<char>) -> Seq<char> {
    join_path(join_path(home, ".reportal"@), "workspaces"@)
}

/// The error for a location that needs the home directory when there is
/// none: `ConfigIoFailure` saying so.
pub open spec fn is_missing_home(error: ReportalError) -> bool {
    error matches ReportalError::ConfigIoFailure { reason } && reason@ == "home directory could not be determined"@
}

/// The default workspace root, or `ConfigIoFailure` without a home
/// directory.
pub fn resolve_default_workspace_root(home: &Option<String>) -> (root: Result<String, ReportalError>)
    ensures
        match home_view(*home) {
            Some(directory) => root matches Ok(path) && path@ == default_workspace_root(directory),
            None => root matches Err(error) && is_missing_home(error),
        },
{
    match home {
        Some(directory) => {
            let base = crate::text::chars_of(directory.as_str());
            let mut dot_dir: Vec<char> = Vec::new();
            crate::text::extend_str(&mut dot_dir, ".reportal");
            let mut workspaces: Vec<char> = Vec::new();
            crate::text::extend_str(&mut workspaces, "workspaces");
            let first = crate::paths::join_paths(base.as_slice(), dot_dir.as_slice());
            let joined = crate::paths::join_paths(first.as_slice(), workspaces.as_slice());
            Ok(crate::text::string_of(joined.as_slice()))
        },
        None => Err(ReportalError::ConfigIoFailure {
            reason: "home directory could not be determined".to_owned(),
        }),
    }
}

} // verus!
