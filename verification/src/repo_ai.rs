//! `rep ai`: which AI coding tool to launch, and in which repository.

use vstd::prelude::*;
use crate::config::{AiToolEntry, ReportalConfig, TagFilter};
use crate::error::ReportalError;
use crate::key_order::{find_key, key_position};
use crate::prompt_identity::title_label;
use crate::repo_selection::{repo_choice, select_repo, RepoChoice, SelectedRepoParams};
use crate::terminal_identity_emit::{
    color_action_for, emit_repo_terminal_identity, TerminalIdentity, TerminalIdentityEmitParams,
};
use crate::text::{extend_str, string_of};

use crate::path_display::{format_path, formatted_path};

verus! {

/// What the AI command was asked.
pub struct AiCommandParameters<'a> {
    /// Which repositories the menu shows.
    pub tag_filter: TagFilter,
    /// A repository to use directly; empty for the menu.
    pub direct_alias: &'a str,
    /// A tool to use instead of the configured default; empty for the
    /// default.
    pub tool_override: &'a str,
}

/// A launch: the tool's name and command line, where to run it, and the
/// terminal identity to apply first.
pub struct AiLaunchPlan {
    pub tool_name: String,
    pub cli_command: String,
    pub launch_args: Vec<String>,
    pub repo_path: String,
    /// The repository path as the message shows it, in the registry's
    /// display format.
    pub shown_path: String,
    pub identity: TerminalIdentity,
}

/// The tool a launch asks for: the override, else the default.
pub open spec fn requested_tool(loaded_config: ReportalConfig, tool_override: Seq<char>) -> Seq<char> {
    if tool_override.len() > 0 {
        tool_override
    } else {
        loaded_config.default_ai_tool@
    }
}

/// The repository menu's prompt for a tool.
pub open spec fn launch_prompt(tool_name: Seq<char>) -> Seq<char> {
    "Launch "@ + tool_name + " in"@
}

/// The prompt of the repository menu: `Launch <tool> in`.
pub fn launch_prompt_label(tool_name: &str) -> (label: String)
    ensures
        label@ == launch_prompt(tool_name@),
{
    let mut text: Vec<char> = Vec::new();
    extend_str(&mut text, "Launch ");
    extend_str(&mut text, tool_name);
    extend_str(&mut text, " in");
    string_of(text.as_slice())
}

/// The tool to launch and its entry. No tools configured gives
/// `NoAiToolsConfigured`; no override and no default gives
/// `NoDefaultAiTool`; a name that no tool is registered under gives
/// `AiToolNotFound`.
pub fn resolve_ai_tool<'a>(loaded_config: &'a ReportalConfig, tool_override: &str) -> (resolved: Result<
    (String, &'a AiToolEntry),
    ReportalError,
>)
    requires
        loaded_config.wf(),
    ensures
        if loaded_config.ai_tools@.len() == 0 {
            resolved matches Err(ReportalError::NoAiToolsConfigured)
        } else if requested_tool(*loaded_config, tool_override@).len() == 0 {
            resolved matches Err(ReportalError::NoDefaultAiTool)
        } else {
            match key_position(loaded_config.ai_tools@, requested_tool(*loaded_config, tool_override@)) {
                None => resolved matches Err(ReportalError::AiToolNotFound { tool_name }) && tool_name@
                    == requested_tool(*loaded_config, tool_override@),
                Some(index) => resolved matches Ok((name, entry)) && name@ == requested_tool(
                    *loaded_config,
                    tool_override@,
                ) && *entry == loaded_config.ai_tools@[index].1,
            }
        },
{
    if loaded_config.ai_tools.len() == 0 {
        return Err(ReportalError::NoAiToolsConfigured);
    }
    let tool_name = if tool_override.is_empty() {
        if loaded_config.default_ai_tool.as_str().is_empty() {
            return Err(ReportalError::NoDefaultAiTool);
        }
        loaded_config.default_ai_tool.as_str()
    } else {
        tool_override
    };
    match find_key(&loaded_config.ai_tools, tool_name) {
        Some(index) => Ok((tool_name.to_owned(), &loaded_config.ai_tools[index].1)),
        None => Err(ReportalError::AiToolNotFound { tool_name: tool_name.to_owned() }),
    }
}

/// What `rep ai` launches: the tool (see [`resolve_ai_tool`]) in the
/// chosen repository (see [`select_repo`]), run from the repository's
/// expanded path after applying its terminal identity.
pub fn run_ai(
    ai_params: &AiCommandParameters<'_>,
    loaded_config: &ReportalConfig,
    home: &Option<String>,
    chosen_index: Option<usize>,
) -> (launch: Result<AiLaunchPlan, ReportalError>)
    requires
        loaded_config.wf(),
    ensures
        ({
            let tool = requested_tool(*loaded_config, ai_params.tool_override@);
            if loaded_config.ai_tools@.len() == 0 {
                launch matches Err(ReportalError::NoAiToolsConfigured)
            } else if tool.len() == 0 {
                launch matches Err(ReportalError::NoDefaultAiTool)
            } else {
                match key_position(loaded_config.ai_tools@, tool) {
                    None => launch matches Err(ReportalError::AiToolNotFound { tool_name }) && tool_name@ == tool,
                    Some(tool_index) => match repo_choice(
                        loaded_config.repos@,
                        ai_params.direct_alias@,
                        ai_params.tag_filter,
                        chosen_index,
                    ) {
                        RepoChoice::Found(index, alias) => launch matches Ok(plan) && plan.tool_name@ == tool
                            && plan.cli_command@ == loaded_config.ai_tools@[tool_index].1.cli_command@
                            && plan.launch_args@ == loaded_config.ai_tools@[tool_index].1.launch_args@
                            && plan.repo_path@ == loaded_config.repos@[index].1.resolved_path_view(*home)
                            && plan.shown_path@ == formatted_path(loaded_config.path_display_format, plan.repo_path@)
                            && plan.identity.resolved_title@ == title_label(loaded_config.repos@[index].1.title, alias)
                            && color_action_for(plan.identity.tab_color_action, loaded_config.repos@[index].1.color),
                        RepoChoice::NotFound => launch matches Err(ReportalError::RepoNotFound { alias }) && alias@
                            == ai_params.direct_alias@,
                        RepoChoice::NoneMatch => launch matches Err(ReportalError::NoReposMatchFilter),
                        RepoChoice::Cancelled => launch matches Err(ReportalError::SelectionCancelled),
                    },
                }
            }
        }),
{
    let (tool_name, ai_tool) = match resolve_ai_tool(loaded_config, ai_params.tool_override) {
        Ok(resolved) => resolved,
        Err(error) => {
            return Err(error);
        },
    };
    let prompt_label = launch_prompt_label(tool_name.as_str());
    let selection_params = SelectedRepoParams {
        loaded_config,
        direct_alias: ai_params.direct_alias,
        tag_filter: &ai_params.tag_filter,
        prompt_label: prompt_label.as_str(),
    };
    let selected = match select_repo(&selection_params, chosen_index) {
        Ok(selected) => selected,
        Err(error) => {
            return Err(error);
        },
    };
    proof {
        reveal_strlit("");
    }
    let identity = emit_repo_terminal_identity(
        TerminalIdentityEmitParams {
            selected_alias: selected.repo_alias(),
            selected_repo: selected.repo_config(),
            title_override: "",
        },
    );
    let repo_path = selected.repo_config().resolved_path(home);
    let shown_path = format_path(loaded_config.path_display_format, repo_path.as_str());
    let mut launch_args: Vec<String> = Vec::new();
    let mut index: usize = 0;
    while index < ai_tool.launch_args.len()
        invariant
            index <= ai_tool.launch_args@.len(),
            launch_args@.len() == index,
            forall|i: int| 0 <= i < index ==> (#[trigger] launch_args@[i]) == ai_tool.launch_args@[i],
        decreases ai_tool.launch_args@.len() - index,
    {
        launch_args.push(ai_tool.launch_args[index].clone());
        index = index + 1;
    }
    assert(launch_args@ =~= ai_tool.launch_args@);
    Ok(
        AiLaunchPlan {
            tool_name,
            cli_command: ai_tool.cli_command.clone(),
            launch_args,
            repo_path,
            shown_path,
            identity,
        },
    )
}

} // verus!
