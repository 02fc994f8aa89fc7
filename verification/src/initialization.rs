//! `rep init <shell>`: the text to `eval` from a shell rc file.

use vstd::prelude::*;
use crate::cli_args::InitializeShell;
use crate::config::ReportalConfig;
use crate::detected_shell::{
    bash_integration_content, bash_integration_text, powershell_integration_content, powershell_integration_text,
};
use crate::shell_alias_emit::{expected_snippet, shell_alias_export_snippet, ShellAliasEmissionParameters};
use crate::shell_prompt_badge::{badge_snippet_text, prompt_badge_integration_snippet};
use crate::text::{extend_str, string_of};

verus! {

/// The base integration script of a shell: the bash one for bash and
/// zsh, the PowerShell one for PowerShell.
pub open spec fn base_integration_text(shell: InitializeShell, binary_version: Seq<char>) -> Seq<char> {
    match shell {
        InitializeShell::Zsh | InitializeShell::Bash => bash_integration_text(binary_version),
        InitializeShell::Powershell => powershell_integration_text(binary_version),
    }
}

/// The text `rep init` prints: the base integration script, the prompt
/// badge snippet, and the shell functions of the opted-in entries. When
/// the configuration could not be loaded the alias block is left out, so
/// that shell startup never breaks on a bad configuration.
pub fn run_initialize(
    shell: InitializeShell,
    binary_version: &str,
    loaded_configuration: Option<&ReportalConfig>,
) -> (script: String)
    ensures
        script@ == base_integration_text(shell, binary_version@) + badge_snippet_text(shell) + match loaded_configuration {
            Some(configuration) => expected_snippet(shell, *configuration),
            None => Seq::empty(),
        },
{
    let base_integration_script = match shell {
        InitializeShell::Zsh | InitializeShell::Bash => bash_integration_content(binary_version),
        InitializeShell::Powershell => powershell_integration_content(binary_version),
    };
    let badge_snippet = prompt_badge_integration_snippet(shell);
    let alias_snippet = match loaded_configuration {
        Some(configuration) => shell_alias_export_snippet(
            &ShellAliasEmissionParameters { target_shell: shell, configuration },
        ),
        None => String::new(),
    };
    let mut text: Vec<char> = Vec::new();
    extend_str(&mut text, base_integration_script.as_str());
    extend_str(&mut text, badge_snippet.as_str());
    extend_str(&mut text, alias_snippet.as_str());
    string_of(text.as_slice())
}

} // verus!
