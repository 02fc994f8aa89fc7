//! Repository and workspace registry logic for a terminal navigation
//! tool: configuration model, listing trees, shell snippets, and the
//! string rules behind them, each with a machine-checked contract.

pub mod text;
pub mod paths;
pub mod key_order;
pub mod error;
pub mod config;
pub mod repo_tree_workspace_section;
pub mod repo_tree_grouping;
pub mod cli_args;
pub mod shell_alias_emit;
pub mod repo_web;
pub mod home;
pub mod prompts;
pub mod repo_add;
pub mod repo_add_flow;
pub mod workspace_layout;
pub mod workspace_operations;
pub mod direct_alias_router;
pub mod path_display;
pub mod prompt_identity;
pub mod prompt_badge_emit;
pub mod git_commands;
pub mod repo_status;
pub mod repo_sync;
pub mod shell_integration_autowire;
pub mod detected_shell;
pub mod repo_listing_renderer;
pub mod repo_listing;
pub mod repo_remove;
pub mod workspace_members;
pub mod workspace_create;
pub mod workspace_delete;
pub mod workspace_selection;
pub mod workspace_show;
pub mod workspace_listing;
pub mod workspace_rebuild;
pub mod repo_selection;
pub mod target_selection;
pub mod repo_run;
pub mod color_command_mode;
pub mod terminal_identity_emit;
pub mod repo_color;
pub mod repository_color;
pub mod doctor;
pub mod workspace_jump;
pub mod workspace_open;
pub mod repo_jump;
pub mod repo_open;
pub mod repo_ai;
pub mod shell_prompt_badge;
pub mod integration_freshness;
pub mod initialization;
pub mod repo_edit_mutator;
pub mod repo_edit;
