use reportal::config::{AiToolEntry, RepoEntry, ReportalConfig, TagFilter};
use reportal::error::ReportalError;
use reportal::repo_ai::{launch_prompt_label, resolve_ai_tool, run_ai, AiCommandParameters};

fn config_with_tools(default_tool: &str) -> ReportalConfig {
    let mut config = ReportalConfig::new("code".to_owned());
    config.ai_tools = vec![
        ("pilot".to_owned(), AiToolEntry { cli_command: "pilot".to_owned(), launch_args: vec!["--resume".to_owned()] }),
        ("scribe".to_owned(), AiToolEntry { cli_command: "scribe".to_owned(), launch_args: vec![] }),
    ];
    config.default_ai_tool = default_tool.to_owned();
    assert!(config.add_repo("app".to_owned(), RepoEntry::at_path("/r/app".to_owned())).is_ok());
    config
}

#[test]
fn no_tools_configured_is_reported() {
    let config = ReportalConfig::new("code".to_owned());
    assert!(matches!(resolve_ai_tool(&config, "pilot"), Err(ReportalError::NoAiToolsConfigured)));
}

#[test]
fn missing_default_without_override_is_reported() {
    let config = config_with_tools("");
    assert!(matches!(resolve_ai_tool(&config, ""), Err(ReportalError::NoDefaultAiTool)));
}

#[test]
fn unknown_tool_is_reported_by_name() {
    let config = config_with_tools("pilot");
    assert!(matches!(resolve_ai_tool(&config, "oracle"), Err(ReportalError::AiToolNotFound { tool_name }) if tool_name == "oracle"));
}

#[test]
fn override_wins_over_default() {
    let config = config_with_tools("pilot");
    let (name, entry) = resolve_ai_tool(&config, "scribe").expect("scribe exists");
    assert_eq!(name, "scribe");
    assert_eq!(entry.cli_command, "scribe");
    let (default_name, _) = resolve_ai_tool(&config, "").expect("default exists");
    assert_eq!(default_name, "pilot");
}

#[test]
fn launch_prompt_names_the_tool() {
    assert_eq!(launch_prompt_label("pilot"), "Launch pilot in");
}

#[test]
fn launch_plan_uses_tool_command_and_repository() {
    let config = config_with_tools("pilot");
    let params = AiCommandParameters { tag_filter: TagFilter::All, direct_alias: "app", tool_override: "" };
    let plan = run_ai(&params, &config, &None, None).expect("launch");
    assert_eq!(plan.tool_name, "pilot");
    assert_eq!(plan.cli_command, "pilot");
    assert_eq!(plan.launch_args, vec!["--resume".to_owned()]);
    assert_eq!(plan.repo_path, "/r/app");
    let unknown = AiCommandParameters { tag_filter: TagFilter::All, direct_alias: "nope", tool_override: "" };
    assert!(matches!(run_ai(&unknown, &config, &None, None), Err(ReportalError::RepoNotFound { .. })));
}
