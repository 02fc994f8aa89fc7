//! Errors reported by registry lookups, edits, and command resolution.

use vstd::prelude::*;

verus! {

/// Every failure the library reports, with the data needed to explain it.
#[derive(Debug)]
pub enum ReportalError {
    /// No repository is registered under this key or declared alias.
    RepoNotFound { alias: String },
    /// No workspace is registered under this name (or alias, where accepted).
    WorkspaceNotFound { name: String },
    /// A repository key that is already taken.
    RepoAlreadyRegistered { alias: String },
    /// A workspace name that is already taken.
    WorkspaceAlreadyRegistered { name: String },
    /// A new workspace lists a repository that is not registered.
    WorkspaceHasDanglingRepo { workspace: String, repo_alias: String },
    /// The configuration or its directory could not be read or written.
    ConfigIoFailure { reason: String },
    /// A value that a field does not accept.
    ValidationFailure { field: String, reason: String },
    /// A color that is not `#RRGGBB`.
    InvalidHexColor { input: String },
    /// The active filter leaves nothing to choose from.
    NoReposMatchFilter,
    /// The user dismissed a selection prompt.
    SelectionCancelled,
    /// The repository has no remote URL to open.
    NoRemoteUrl { alias: String },
    /// The browser could not be launched.
    BrowserLaunchFailure { reason: String },
    /// A workspace directory, link, or file could not be written.
    CodeWorkspaceIoFailure { file_path: String, reason: String },
    /// The repository cannot be removed while workspaces list it.
    RepoIsWorkspaceMember { alias: String, affected_workspaces: String },
    /// Neither global nor repository commands are configured.
    NoCommandsAvailable,
    /// The requested command name is not configured.
    CommandNotFound { command_name: String },
    /// A configured command could not be started.
    CommandLaunchFailure { reason: String },
    /// The editor could not be started.
    EditorLaunchFailure { reason: String },
    /// An AI tool could not be started.
    AiToolLaunchFailure { reason: String },
    /// No AI tools are configured.
    NoAiToolsConfigured,
    /// No default AI tool is configured and none was named.
    NoDefaultAiTool,
    /// The named AI tool is not configured.
    AiToolNotFound { tool_name: String },
    /// No workspaces are configured.
    NoWorkspacesConfigured,
}

/// The error is `RepoNotFound` for `name`.
pub open spec fn is_repo_not_found(error: ReportalError, name: Seq<char>) -> bool {
    error matches ReportalError::RepoNotFound { alias } && alias@ == name
}

/// The error is `WorkspaceNotFound` for `name`.
pub open spec fn is_workspace_not_found(error: ReportalError, name: Seq<char>) -> bool {
    error matches ReportalError::WorkspaceNotFound { name: missing } && missing@ == name
}

} // verus!
