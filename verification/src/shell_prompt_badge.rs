//! The prompt-badge snippet that `rep init` appends to the shell
//! integration: a hook that puts the badge printed by `rep prompt` in
//! front of the prompt on every redraw.
//!
//! For bash and zsh the hook strips the badge it added last time (if the
//! prompt still starts with it) before prepending the fresh one, and moves
//! itself to the end of the prompt-hook chain so that prompt frameworks
//! that rewrite the prompt run before it. For PowerShell the `prompt`
//! function is wrapped, which composes with other wrappers.

use vstd::prelude::*;
use crate::cli_args::InitializeShell;

verus! {

/// The bash hook.
pub const BASH_BADGE_SNIPPET: &'static str = r#"
_REPORTAL_LAST_BADGE_BASH=""
_reportal_prompt_badge_hook() {
    local _b; _b=$(rep prompt --shell bash 2>/dev/null)
    if [ -n "$_REPORTAL_LAST_BADGE_BASH" ] && [[ "$PS1" == "$_REPORTAL_LAST_BADGE_BASH"* ]]; then
        PS1="${PS1#$_REPORTAL_LAST_BADGE_BASH}"
    fi
    if [ -n "$_b" ]; then
        PS1="$_b $PS1"
        _REPORTAL_LAST_BADGE_BASH="$_b "
    else
        _REPORTAL_LAST_BADGE_BASH=""
    fi
    PROMPT_COMMAND="${PROMPT_COMMAND//;_reportal_prompt_badge_hook/}"
    PROMPT_COMMAND="${PROMPT_COMMAND//_reportal_prompt_badge_hook;/}"
    PROMPT_COMMAND="${PROMPT_COMMAND//_reportal_prompt_badge_hook/}"
    PROMPT_COMMAND="${PROMPT_COMMAND:+$PROMPT_COMMAND;}_reportal_prompt_badge_hook"
}
PROMPT_COMMAND="${PROMPT_COMMAND:+$PROMPT_COMMAND;}_reportal_prompt_badge_hook"
"#;

/// The zsh hook.
pub const ZSH_BADGE_SNIPPET: &'static str = r#"
typeset -g _REPORTAL_LAST_BADGE_ZSH=""
_reportal_prompt_badge_hook() {
    local _b
    _b=$(rep prompt --shell zsh 2>/dev/null)
    if [ -n "$_REPORTAL_LAST_BADGE_ZSH" ] && [[ "$PROMPT" == "$_REPORTAL_LAST_BADGE_ZSH"* ]]; then
        PROMPT="${PROMPT#$_REPORTAL_LAST_BADGE_ZSH}"
    fi
    if [ -n "$_b" ]; then
        PROMPT="$_b $PROMPT"
        _REPORTAL_LAST_BADGE_ZSH="$_b "
    else
        _REPORTAL_LAST_BADGE_ZSH=""
    fi
    precmd_functions=(${precmd_functions:#_reportal_prompt_badge_hook} _reportal_prompt_badge_hook)
}
autoload -Uz add-zsh-hook 2>/dev/null || true
if typeset -f add-zsh-hook >/dev/null 2>&1; then add-zsh-hook precmd _reportal_prompt_badge_hook; fi
"#;

/// The PowerShell `prompt` wrapper.
pub const POWERSHELL_BADGE_SNIPPET: &'static str = r#"
if (-not (Get-Variable -Name '_ReportalOriginalBadgePrompt' -Scope Global -ErrorAction SilentlyContinue)) {
    $Global:_ReportalOriginalBadgePrompt = $function:global:prompt
}
function global:prompt {
    $existingPromptOutput = & $Global:_ReportalOriginalBadgePrompt
    $badgeOutput = rep prompt --shell powershell 2>$null
    if ($badgeOutput) { "$badgeOutput $existingPromptOutput" } else { $existingPromptOutput }
}
"#;

/// The snippet for a shell.
pub open spec fn badge_snippet_text(target_shell: InitializeShell) -> Seq<char> {
    match target_shell {
        InitializeShell::Bash => BASH_BADGE_SNIPPET@,
        InitializeShell::Zsh => ZSH_BADGE_SNIPPET@,
        InitializeShell::Powershell => POWERSHELL_BADGE_SNIPPET@,
    }
}

/// The badge-prepending snippet for the target shell.
pub fn prompt_badge_integration_snippet(target_shell: InitializeShell) -> (snippet: String)
    ensures
        snippet@ == badge_snippet_text(target_shell),
{
    match target_shell {
        InitializeShell::Bash => BASH_BADGE_SNIPPET.to_owned(),
        InitializeShell::Zsh => ZSH_BADGE_SNIPPET.to_owned(),
        InitializeShell::Powershell => POWERSHELL_BADGE_SNIPPET.to_owned(),
    }
}

} // verus!
