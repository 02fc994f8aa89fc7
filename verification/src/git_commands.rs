//! What a finished `git` invocation reported.

use vstd::prelude::*;
use crate::text::{chars_of, string_of, trim, trimmed};

verus! {

/// How a `git` command ended.
pub enum GitCommandOutcome {
    /// It exited successfully; its standard output, trimmed.
    Output(String),
    /// It could not be started.
    SpawnFailed,
    /// It exited with a failure status.
    NonZeroExit,
}

/// A `git` invocation: the repository directory and the arguments.
pub struct GitCommandParameters<'a> {
    pub repo_path: &'a str,
    pub git_subcommand_args: &'a [&'a str],
}

/// Reads how a `git` command ended: not started, failed, or succeeded
/// with its standard output trimmed.
pub fn interpret_git_run(started: bool, succeeded: bool, standard_output: &str) -> (outcome:
    GitCommandOutcome)
    ensures
        !started ==> outcome is SpawnFailed,
        started && !succeeded ==> outcome is NonZeroExit,
        started && succeeded ==> (outcome matches GitCommandOutcome::Output(text) && text@ == trim(
            standard_output@,
        )),
{
    if !started {
        return GitCommandOutcome::SpawnFailed;
    }
    if !succeeded {
        return GitCommandOutcome::NonZeroExit;
    }
    let characters = chars_of(standard_output);
    let cleaned = trimmed(characters.as_slice());
    GitCommandOutcome::Output(string_of(cleaned.as_slice()))
}

} // verus!
