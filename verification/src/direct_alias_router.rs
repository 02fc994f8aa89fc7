//! Routing a name given to `rep jump` / `rep open`: a repository, a
//! workspace, or neither.

use vstd::prelude::*;
use crate::config::{ReportalConfig, repo_lookup, workspace_lookup};
use crate::error::{ReportalError, is_workspace_not_found};
use crate::home::{home_view, is_missing_home};
use crate::path_display::{
    echoes, format_path, formatted_path, print_selected_path_if_visible, SelectedPathDisplayParams,
};
use crate::key_order::key_position;
use crate::paths::{parent, parent_of};
use crate::text::{chars_of, string_of};
use crate::workspace_layout::workspace_file_in;
use crate::workspace_operations::{WorkspaceRegenerator, workspace_directory_of};

verus! {

/// Where a name leads.
pub enum DirectAliasRouterOutcome {
    /// A registered repository (by key or declared alias).
    RegisteredRepo,
    /// A workspace, by its canonical name.
    Workspace(String),
    /// Nothing registered answers to the name.
    Unknown,
}

/// Routes names against one registry.
pub struct DirectAliasRouter<'config> {
    pub loaded_config: &'config ReportalConfig,
}

/// What a workspace jump prints: the directory for the shell wrapper to
/// `cd` into, and the line echoed on stderr, if any.
pub struct WorkspaceJump {
    pub printed_path: String,
    pub echoed_path: Option<String>,
}

/// The jump lands in `directory`: it prints the directory in the
/// registry's display format and echoes it as the registry says.
pub open spec fn lands_in(jump: WorkspaceJump, config: ReportalConfig, directory: Seq<char>) -> bool {
    &&& jump.printed_path@ == formatted_path(config.path_display_format, directory)
    &&& echoes(config, directory, jump.echoed_path)
}

/// The parent directory of a workspace file, or `.` when it has none.
pub open spec fn jump_directory(workspace_file: Seq<char>) -> Seq<char> {
    match parent(workspace_file) {
        Some(directory) => directory,
        None => seq!['.'],
    }
}

impl<'config> DirectAliasRouter<'config> {
    /// A router over the registry.
    pub fn for_config(loaded_config: &'config ReportalConfig) -> (router: Self)
        ensures
            router.loaded_config == loaded_config,
    {
        DirectAliasRouter { loaded_config }
    }

    /// Repositories win: a name that selects a repository routes there;
    /// otherwise a workspace by name or alias; otherwise nowhere.
    pub fn classify(&self, alias: &str) -> (outcome: Result<DirectAliasRouterOutcome, ReportalError>)
        requires
            self.loaded_config.wf(),
        ensures
            repo_lookup(self.loaded_config.repos@, alias@) is Some ==> outcome matches Ok(
                DirectAliasRouterOutcome::RegisteredRepo,
            ),
            repo_lookup(self.loaded_config.repos@, alias@) is None ==> match workspace_lookup(
                self.loaded_config.workspaces@,
                alias@,
            ) {
                Some(index) => outcome matches Ok(DirectAliasRouterOutcome::Workspace(name)) && name@
                    == self.loaded_config.workspaces@[index].0@,
                None => outcome matches Ok(DirectAliasRouterOutcome::Unknown),
            },
    {
        match self.loaded_config.get_repo(alias) {
            Ok(_found) => Ok(DirectAliasRouterOutcome::RegisteredRepo),
            Err(ReportalError::RepoNotFound { .. }) => self.classify_workspace_branch(alias),
            Err(other_repo_error) => Err(other_repo_error),
        }
    }

    fn classify_workspace_branch(&self, alias: &str) -> (outcome: Result<
        DirectAliasRouterOutcome,
        ReportalError,
    >)
        requires
            self.loaded_config.wf(),
        ensures
            match workspace_lookup(self.loaded_config.workspaces@, alias@) {
                Some(index) => outcome matches Ok(DirectAliasRouterOutcome::Workspace(name)) && name@
                    == self.loaded_config.workspaces@[index].0@,
                None => outcome matches Ok(DirectAliasRouterOutcome::Unknown),
            },
    {
        match self.loaded_config.resolve_workspace_canonical_name(alias) {
            Ok(canonical_workspace_name) => Ok(
                DirectAliasRouterOutcome::Workspace(canonical_workspace_name),
            ),
            Err(ReportalError::WorkspaceNotFound { .. }) => Ok(DirectAliasRouterOutcome::Unknown),
            Err(other_workspace_error) => Err(other_workspace_error),
        }
    }

    /// A jump into the parent of the workspace's `.code-workspace` file,
    /// printed and echoed in the registry's display format.
    pub fn jump_to_workspace_parent(&self, canonical_workspace_name: &str, home: &Option<String>) -> (target:
        Result<WorkspaceJump, ReportalError>)
        requires
            self.loaded_config.wf(),
        ensures
            match key_position(self.loaded_config.workspaces@, canonical_workspace_name@) {
                None => target matches Err(error) && is_workspace_not_found(
                    error,
                    canonical_workspace_name@,
                ),
                Some(index) => match workspace_directory_of(
                    self.loaded_config.workspaces@[index].1,
                    canonical_workspace_name@,
                    home_view(*home),
                ) {
                    Some(directory) => target matches Ok(found) && lands_in(
                        found,
                        *self.loaded_config,
                        jump_directory(workspace_file_in(directory, canonical_workspace_name@)),
                    ),
                    None => target matches Err(error) && is_missing_home(error),
                },
            },
    {
        let regenerator = WorkspaceRegenerator::for_config(self.loaded_config);
        let workspace_file_path = match regenerator.resolve_workspace_file_path(
            canonical_workspace_name,
            home,
        ) {
            Ok(path) => path,
            Err(error) => {
                return Err(error);
            },
        };
        let file_chars = chars_of(workspace_file_path.as_str());
        let directory = match parent_of(file_chars.as_slice()) {
            Some(parent_directory) => string_of(parent_directory.as_slice()),
            None => {
                let dot = ['.'];
                assert(dot@ =~= seq!['.']);
                string_of(&dot)
            },
        };
        let printed_path = format_path(self.loaded_config.path_display_format, directory.as_str());
        let echoed_path = print_selected_path_if_visible(
            &SelectedPathDisplayParams { loaded_config: self.loaded_config, resolved_path: directory.as_str() },
        );
        Ok(WorkspaceJump { printed_path, echoed_path })
    }
}

} // verus!
