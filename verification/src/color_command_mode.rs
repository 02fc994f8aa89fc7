//! How `rep color` was invoked.

use vstd::prelude::*;

verus! {

/// Invocation mode of the color command.
///
/// `PromptHook` (the shell prompt function) prints the resolved title and
/// leaves the terminal as it is when nothing matches; `Explicit` (a direct
/// call) prints nothing and resets the tab color when nothing matches.
#[derive(Clone, Copy, PartialEq, Eq, Structural)]
pub enum ColorCommandMode {
    PromptHook,
    Explicit,
}

} // verus!
