//! The terminal identity (tab title and tab color) of a selected
//! repository.

use vstd::prelude::*;
use crate::config::{channel_value, HexColor, RepoColor, RepoEntry, TabTitle};
use crate::prompt_identity::title_label;
use crate::text::{decimal, extend_str, push_decimal, string_of};

verus! {

/// What to do with the tab color.
pub enum TabColorAction {
    /// Paint the tab in this color.
    SetColor(HexColor),
    /// Return the tab to the terminal's default color.
    Reset,
}

/// A title and a tab color action, ready to be written to the terminal.
pub struct TerminalIdentity {
    pub resolved_title: String,
    pub tab_color_action: TabColorAction,
}

/// The action paints the repository's color, or resets when it has none.
pub open spec fn color_action_for(action: TabColorAction, color: RepoColor) -> bool {
    match color {
        RepoColor::Themed(hex) => action matches TabColorAction::SetColor(set) && set@ == hex@,
        RepoColor::ResetToDefault => action is Reset,
    }
}

/// The tab color action for a repository color.
pub fn resolve_tab_color(repo_color: &RepoColor) -> (action: TabColorAction)
    ensures
        color_action_for(action, *repo_color),
{
    match repo_color {
        RepoColor::Themed(hex_color) => TabColorAction::SetColor(hex_color.duplicate()),
        RepoColor::ResetToDefault => TabColorAction::Reset,
    }
}

/// The title a tab shows: the custom title, else the fallback alias.
pub fn resolve_tab_title(tab_title: &TabTitle, fallback_alias: &str) -> (title: String)
    ensures
        title@ == title_label(*tab_title, fallback_alias@),
{
    match tab_title {
        TabTitle::Custom(custom_title) => custom_title.clone(),
        TabTitle::UseAlias => fallback_alias.to_owned(),
    }
}

/// What the identity of a selected repository is built from.
pub struct TerminalIdentityEmitParams<'a> {
    /// The name the repository was selected by (the fallback title).
    pub selected_alias: &'a str,
    /// The selected repository.
    pub selected_repo: &'a RepoEntry,
    /// A title for this session; empty to use the repository's.
    pub title_override: &'a str,
}

/// The identity of a selected repository. The title is the override,
/// else the repository's custom title, else the alias; the color is the
/// repository's, or a reset when it has none.
pub fn emit_repo_terminal_identity(identity_params: TerminalIdentityEmitParams<'_>) -> (identity:
    TerminalIdentity)
    ensures
        identity.resolved_title@ == if identity_params.title_override@.len() > 0 {
            identity_params.title_override@
        } else {
            title_label(identity_params.selected_repo.title, identity_params.selected_alias@)
        },
        color_action_for(identity.tab_color_action, identity_params.selected_repo.color),
{
    let resolved_title = if !identity_params.title_override.is_empty() {
        identity_params.title_override.to_owned()
    } else {
        resolve_tab_title(&identity_params.selected_repo.title, identity_params.selected_alias)
    };
    let tab_color_action = resolve_tab_color(&identity_params.selected_repo.color);
    TerminalIdentity { resolved_title, tab_color_action }
}

// ---------------------------------------------------------------------
// Escape sequences
// ---------------------------------------------------------------------

/// The sequence that sets the terminal title: `ESC ] 2 ; title BEL`.
pub open spec fn title_sequence(title: Seq<char>) -> Seq<char> {
    "\x1b]2;"@ + title + "\x07"@
}

/// The sequence that sets one channel of the tab color:
/// `ESC ] 6 ; 1 ; bg ; <channel> ; brightness ; <value> BEL`.
pub open spec fn channel_sequence(channel: Seq<char>, value: nat) -> Seq<char> {
    "\x1b]6;1;bg;"@ + channel + ";brightness;"@ + decimal(value) + "\x07"@
}

/// The sequence that paints the tab in a `#RRGGBB` color: red, green,
/// then blue, each in decimal.
pub open spec fn tab_color_sequence(hex: Seq<char>) -> Seq<char> {
    channel_sequence("red"@, channel_value(hex, 1)) + channel_sequence("green"@, channel_value(hex, 3))
        + channel_sequence("blue"@, channel_value(hex, 5))
}

/// The sequence that returns the tab to the terminal's default color.
pub open spec fn reset_tab_color_text() -> Seq<char> {
    "\x1b]6;1;bg;*;default\x07"@
}

/// What the terminal receives for an identity: the title, then the tab
/// color or its reset.
pub open spec fn identity_sequence(identity: TerminalIdentity) -> Seq<char> {
    title_sequence(identity.resolved_title@) + match identity.tab_color_action {
        TabColorAction::SetColor(hex) => tab_color_sequence(hex@),
        TabColorAction::Reset => reset_tab_color_text(),
    }
}

fn push_channel(text: &mut Vec<char>, channel: &str, value: u8)
    ensures
        final(text)@ == old(text)@ + channel_sequence(channel@, value as nat),
{
    extend_str(text, "\x1b]6;1;bg;");
    extend_str(text, channel);
    extend_str(text, ";brightness;");
    push_decimal(text, value as usize);
    extend_str(text, "\x07");
    assert(final(text)@ =~= old(text)@ + channel_sequence(channel@, value as nat));
}

/// The sequence that returns the tab to the terminal's default color.
pub fn reset_tab_color_sequence() -> (sequence: String)
    ensures
        sequence@ == reset_tab_color_text(),
{
    "\x1b]6;1;bg;*;default\x07".to_owned()
}

/// The escape sequence that applies an identity to the terminal: its title,
/// then its tab color (or the reset).
pub fn terminal_identity_sequence(identity: &TerminalIdentity) -> (sequence: String)
    ensures
        sequence@ == identity_sequence(*identity),
{
    let mut text: Vec<char> = Vec::new();
    extend_str(&mut text, "\x1b]2;");
    extend_str(&mut text, identity.resolved_title.as_str());
    extend_str(&mut text, "\x07");
    match &identity.tab_color_action {
        TabColorAction::SetColor(hex_color) => {
            let (red, green, blue) = match hex_color.as_rgb_bytes() {
                Ok(channels) => channels,
                Err(_) => (0, 0, 0),
            };
            push_channel(&mut text, "red", red);
            push_channel(&mut text, "green", green);
            push_channel(&mut text, "blue", blue);
        },
        TabColorAction::Reset => {
            extend_str(&mut text, "\x1b]6;1;bg;*;default\x07");
        },
    }
    assert(text@ =~= identity_sequence(*identity));
    string_of(text.as_slice())
}

} // verus!
