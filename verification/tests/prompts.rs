use reportal::error::ReportalError;
use reportal::prompts::{
    interpret_color_edit_input, interpret_color_input, parse_comma_separated_tags, ColorEditResult, ColorPromptResult,
    PromptAnswer,
};

#[test]
fn tags_are_trimmed_and_empty_pieces_dropped() {
    assert_eq!(parse_comma_separated_tags(" work ,rust,, tools "), vec!["work", "rust", "tools"]);
    assert!(parse_comma_separated_tags("").is_empty());
    assert!(parse_comma_separated_tags(" , ").is_empty());
}

#[test]
fn color_prompt_skips_accepts_or_asks_again() {
    assert!(matches!(interpret_color_input(""), PromptAnswer::Accepted(ColorPromptResult::Skipped)));
    assert!(matches!(interpret_color_input("#00ff7F"), PromptAnswer::Accepted(ColorPromptResult::Provided(color)) if color.raw_value() == "#00ff7F"));
    assert!(matches!(interpret_color_input("red"), PromptAnswer::AskAgain(ReportalError::InvalidHexColor { input }) if input == "red"));
}

#[test]
fn color_edit_distinguishes_unchanged_from_new() {
    assert!(matches!(interpret_color_edit_input("", "#000000"), PromptAnswer::Accepted(ColorEditResult::Cleared)));
    assert!(matches!(interpret_color_edit_input("#000000", "#000000"), PromptAnswer::Accepted(ColorEditResult::Unchanged(_))));
    assert!(matches!(interpret_color_edit_input("#111111", "#000000"), PromptAnswer::Accepted(ColorEditResult::Provided(_))));
    assert!(matches!(interpret_color_edit_input("#12345", "#000000"), PromptAnswer::AskAgain(_)));
}

#[test]
fn shown_tags_parse_back_unchanged() {
    let parsed = parse_comma_separated_tags("  web ,, api,\tbackend end ,");
    assert_eq!(parsed, vec!["web", "api", "backend end"]);
    let shown = parsed.join(", ");
    assert_eq!(shown, "web, api, backend end");
    assert_eq!(parse_comma_separated_tags(&shown), parsed);
}
