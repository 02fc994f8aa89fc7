//! The prompt badge for a working directory: its identity's label in its
//! accent color, with the color codes fenced so the shell does not count
//! them as visible characters.

use vstd::prelude::*;
use crate::cli_args::PromptShell;
use crate::config::{HexColor, RepoColor, ReportalConfig, channel_value};
use crate::prompt_identity::{longest_match, repository_paths, title_label, workspace_directories};
use crate::error::ReportalError;
use crate::prompt_identity::{PromptIdentity, PromptIdentityResolver};
use crate::text::{decimal, extend_str, push_decimal, string_of};

verus! {

/// The markers a shell wants around non-printing bytes: `\[` `\]` for
/// bash, `%{` `%}` for zsh, nothing for PowerShell.
pub open spec fn escape_markers(shell: PromptShell) -> (Seq<char>, Seq<char>) {
    match shell {
        PromptShell::Bash => (seq!['\\', '['], seq!['\\', ']']),
        PromptShell::Zsh => (seq!['%', '{'], seq!['%', '}']),
        PromptShell::Powershell => (Seq::empty(), Seq::empty()),
    }
}

/// The opening and closing markers for one shell.
pub struct NonPrintingEscapeWrapper {
    pub opening_marker: &'static str,
    pub closing_marker: &'static str,
}

/// `open, ESC[38;2;R;G;Bm, close, label, open, ESC[0m, close`.
pub open spec fn colored_label(markers: (Seq<char>, Seq<char>), label: Seq<char>, color: Seq<char>) -> Seq<char> {
    let (open, close) = markers;
    open + "\x1b[38;2;"@ + decimal(channel_value(color, 1)) + ";"@ + decimal(channel_value(color, 3))
        + ";"@ + decimal(channel_value(color, 5)) + "m"@ + close + label + open + "\x1b[0m"@ + close
}

/// The badge text for an identity: the bare label without a color.
pub open spec fn badge_text(markers: (Seq<char>, Seq<char>), identity: PromptIdentity) -> Seq<char> {
    match identity.accent_color {
        Some(color) => colored_label(markers, identity.display_label@, color@),
        None => identity.display_label@,
    }
}

/// The badge for a label and an entry's color.
pub open spec fn badge_for(markers: (Seq<char>, Seq<char>), label: Seq<char>, color: RepoColor) -> Seq<char> {
    match color {
        RepoColor::Themed(hex) => colored_label(markers, label, hex@),
        RepoColor::ResetToDefault => label,
    }
}

impl NonPrintingEscapeWrapper {
    /// The marker pair of a shell.
    pub fn for_shell(requested_shell: PromptShell) -> (wrapper: Self)
        ensures
            (wrapper.opening_marker@, wrapper.closing_marker@) == escape_markers(requested_shell),
    {
        proof {
            reveal_strlit("\\[");
            reveal_strlit("\\]");
            reveal_strlit("%{");
            reveal_strlit("%}");
            reveal_strlit("");
        }
        match requested_shell {
            PromptShell::Bash => NonPrintingEscapeWrapper { opening_marker: "\\[", closing_marker: "\\]" },
            PromptShell::Zsh => NonPrintingEscapeWrapper { opening_marker: "%{", closing_marker: "%}" },
            PromptShell::Powershell => NonPrintingEscapeWrapper { opening_marker: "", closing_marker: "" },
        }
    }

    /// The label in the color, fenced with this shell's markers.
    pub fn render_colored_label(&self, display_label: &str, accent_hex_color: &HexColor) -> (rendered:
        Result<String, ReportalError>)
        ensures
            rendered matches Ok(text) && text@ == colored_label(
                (self.opening_marker@, self.closing_marker@),
                display_label@,
                accent_hex_color@,
            ),
    {
        let (red_channel, green_channel, blue_channel) = match accent_hex_color.as_rgb_bytes() {
            Ok(channels) => channels,
            Err(error) => {
                return Err(error);
            },
        };
        let mut text: Vec<char> = Vec::new();
        extend_str(&mut text, self.opening_marker);
        extend_str(&mut text, "\x1b[38;2;");
        push_decimal(&mut text, red_channel as usize);
        extend_str(&mut text, ";");
        push_decimal(&mut text, green_channel as usize);
        extend_str(&mut text, ";");
        push_decimal(&mut text, blue_channel as usize);
        extend_str(&mut text, "m");
        extend_str(&mut text, self.closing_marker);
        extend_str(&mut text, display_label);
        extend_str(&mut text, self.opening_marker);
        extend_str(&mut text, "\x1b[0m");
        extend_str(&mut text, self.closing_marker);
        Ok(string_of(text.as_slice()))
    }

    /// The badge for an identity: the colored label, or the bare label
    /// when it has no color.
    pub fn render_identity(&self, resolved_identity: &PromptIdentity) -> (rendered: Result<String, ReportalError>)
        ensures
            rendered matches Ok(text) && text@ == badge_text(
                (self.opening_marker@, self.closing_marker@),
                *resolved_identity,
            ),
    {
        match &resolved_identity.accent_color {
            Some(hex_color) => self.render_colored_label(resolved_identity.display_label.as_str(), hex_color),
            None => Ok(resolved_identity.display_label.clone()),
        }
    }
}

/// The badge to print for a working directory, or nothing when no
/// workspace or repository holds it.
pub fn run_prompt(
    requested_shell: PromptShell,
    loaded_configuration: &ReportalConfig,
    current_directory: &str,
    home: &Option<String>,
) -> (badge: Result<Option<String>, ReportalError>)
    requires
        loaded_configuration.wf(),
    ensures
        match workspace_directories(*loaded_configuration, *home) {
            None => badge matches Err(error) && error is ConfigIoFailure,
            Some(directories) => match longest_match(directories, current_directory@) {
                Some(index) => badge matches Ok(Some(text)) && text@ == badge_for(
                    escape_markers(requested_shell),
                    title_label(
                        loaded_configuration.workspaces@[index].1.title,
                        loaded_configuration.workspaces@[index].0@,
                    ),
                    loaded_configuration.workspaces@[index].1.color,
                ),
                None => match longest_match(
                    repository_paths(*loaded_configuration, *home),
                    current_directory@,
                ) {
                    None => badge matches Ok(None),
                    Some(index) => badge matches Ok(Some(text)) && text@ == badge_for(
                        escape_markers(requested_shell),
                        title_label(
                            loaded_configuration.repos@[index].1.title,
                            loaded_configuration.repos@[index].0@,
                        ),
                        loaded_configuration.repos@[index].1.color,
                    ),
                },
            },
        },
{
    let identity_resolver = PromptIdentityResolver::for_configuration(loaded_configuration);
    let resolved_identity = match identity_resolver.resolve_from_directory(current_directory, home) {
        Ok(Some(identity)) => identity,
        Ok(None) => {
            return Ok(None);
        },
        Err(error) => {
            return Err(error);
        },
    };
    let escape_wrapper = NonPrintingEscapeWrapper::for_shell(requested_shell);
    match escape_wrapper.render_identity(&resolved_identity) {
        Ok(rendered) => Ok(Some(rendered)),
        Err(error) => Err(error),
    }
}

} // verus!
