use reportal::config::{HexColor, RepoColor, RepoEntry, TabTitle};
use reportal::terminal_identity_emit::{
    emit_repo_terminal_identity, reset_tab_color_sequence, resolve_tab_color, resolve_tab_title,
    terminal_identity_sequence, TabColorAction, TerminalIdentity, TerminalIdentityEmitParams,
};

fn themed_repo() -> RepoEntry {
    let mut entry = RepoEntry::at_path("/r".to_owned());
    entry.title = TabTitle::Custom("Custom".to_owned());
    entry.color = RepoColor::Themed(HexColor::parse("#ff8800").ok().expect("valid color"));
    entry
}

#[test]
fn title_override_beats_custom_title() {
    let entry = themed_repo();
    let identity = emit_repo_terminal_identity(TerminalIdentityEmitParams {
        selected_alias: "app",
        selected_repo: &entry,
        title_override: "Session",
    });
    assert_eq!(identity.resolved_title, "Session");
    assert!(matches!(identity.tab_color_action, TabColorAction::SetColor(hex) if hex.raw_value() == "#ff8800"));
}

#[test]
fn custom_title_beats_alias() {
    let entry = themed_repo();
    let identity = emit_repo_terminal_identity(TerminalIdentityEmitParams {
        selected_alias: "app",
        selected_repo: &entry,
        title_override: "",
    });
    assert_eq!(identity.resolved_title, "Custom");
}

#[test]
fn alias_is_the_fallback_title_and_no_color_resets() {
    let entry = RepoEntry::at_path("/r".to_owned());
    assert_eq!(resolve_tab_title(&entry.title, "app"), "app");
    assert!(matches!(resolve_tab_color(&entry.color), TabColorAction::Reset));
}

#[test]
fn identity_sequence_sets_title_then_tab_color() {
    let repo = themed_repo();
    let identity = emit_repo_terminal_identity(TerminalIdentityEmitParams {
        selected_alias: "app",
        selected_repo: &repo,
        title_override: "",
    });
    assert_eq!(
        terminal_identity_sequence(&identity),
        "\x1b]2;Custom\x07\x1b]6;1;bg;red;brightness;255\x07\x1b]6;1;bg;green;brightness;136\x07\x1b]6;1;bg;blue;brightness;0\x07"
    );
    let plain = TerminalIdentity { resolved_title: "x".to_owned(), tab_color_action: TabColorAction::Reset };
    assert_eq!(terminal_identity_sequence(&plain), "\x1b]2;x\x07\x1b]6;1;bg;*;default\x07");
    assert_eq!(reset_tab_color_sequence(), "\x1b]6;1;bg;*;default\x07");
}
