//! Choices the command line offers that the library's logic reads.

use vstd::prelude::*;

verus! {

/// The shell an integration script or snippet is written for.
#[derive(PartialEq, Eq, Structural, Clone, Copy, Debug)]
pub enum InitializeShell {
    Zsh,
    Bash,
    Powershell,
}

/// The shell a prompt badge is written for.
#[derive(PartialEq, Eq, Structural, Clone, Copy, Debug)]
pub enum PromptShell {
    Bash,
    Zsh,
    Powershell,
}

} // verus!
