//! The on-disk shape of a workspace: a directory holding one link per
//! member and a `<name>.code-workspace` file whose folders are the links.
//! This module decides the paths, the folder entries, and what to do
//! with whatever already sits at a link's path; the caller touches disk.

use vstd::prelude::*;
use crate::error::ReportalError;
use crate::paths::{join_path, join_paths, paths_equal, same_path};
use crate::text::{chars_of, extend_str, string_of};

verus! {

/// One member link: its name inside the workspace directory and the
/// absolute path it points at.
pub struct WorkspaceLinkSpec {
    pub link_name: String,
    pub target_absolute_path: String,
}

/// What happened to one member link.
#[derive(PartialEq, Eq, Structural, Clone, Copy)]
pub enum WorkspaceLinkOutcome {
    /// There was nothing at the link path; a link was created.
    Created,
    /// A link to the expected target was already there.
    AlreadyCorrect,
    /// A link to another target was removed and created again.
    Replaced,
}

/// What a workspace layout is made from.
pub struct WorkspaceLayoutParameters<'caller> {
    pub workspace_directory: &'caller str,
    pub workspace_name: &'caller str,
    pub member_links: &'caller [WorkspaceLinkSpec],
    pub window_title_override: Option<&'caller str>,
    pub title_bar_color_hex: Option<&'caller str>,
}

/// `<directory>/<name>.code-workspace`.
pub open spec fn workspace_file_in(directory: Seq<char>, name: Seq<char>) -> Seq<char> {
    join_path(directory, name + ".code-workspace"@)
}

/// The `.code-workspace` file inside a workspace directory.
pub fn workspace_file_path_inside_dir(workspace_directory: &str, workspace_name: &str) -> (path:
    String)
    ensures
        path@ == workspace_file_in(workspace_directory@, workspace_name@),
{
    let directory = chars_of(workspace_directory);
    let mut file_name: Vec<char> = Vec::new();
    extend_str(&mut file_name, workspace_name);
    extend_str(&mut file_name, ".code-workspace");
    let joined = join_paths(directory.as_slice(), file_name.as_slice());
    string_of(joined.as_slice())
}

/// The folder entry for a link: `./<link name>`.
pub open spec fn folder_entry(link_name: Seq<char>) -> Seq<char> {
    "./"@ + link_name
}

/// Everything a layout writes, in order: the directory, one link per
/// member (link path, target), the workspace file, its folder entries, and
/// the window identity when one is set.
pub struct WorkspaceLayoutPlan {
    pub workspace_directory: String,
    pub member_links: Vec<(String, String)>,
    pub workspace_file_path: String,
    pub folder_paths: Vec<String>,
    pub window_identity: Option<(String, Option<String>)>,
}

/// The plan for a layout: the links go inside the directory under their
/// names, the folders are `./<name>` in member order, and the window
/// identity is the title override with its color, if a title is given.
pub fn materialize_workspace_layout(layout_params: &WorkspaceLayoutParameters<'_>) -> (plan:
    WorkspaceLayoutPlan)
    ensures
        plan.workspace_directory@ == layout_params.workspace_directory@,
        plan.workspace_file_path@ == workspace_file_in(
            layout_params.workspace_directory@,
            layout_params.workspace_name@,
        ),
        plan.member_links@.len() == layout_params.member_links@.len(),
        plan.folder_paths@.len() == layout_params.member_links@.len(),
        forall|i: int|
            0 <= i < plan.member_links@.len() ==> (#[trigger] plan.member_links@[i]).0@ == join_path(
                layout_params.workspace_directory@,
                layout_params.member_links@[i].link_name@,
            ) && plan.member_links@[i].1@ == layout_params.member_links@[i].target_absolute_path@
                && plan.folder_paths@[i]@ == folder_entry(layout_params.member_links@[i].link_name@),
        match layout_params.window_title_override {
            None => plan.window_identity is None,
            Some(title) => plan.window_identity matches Some((shown, color)) && shown@ == title@
                && match layout_params.title_bar_color_hex {
                Some(hex) => color matches Some(chosen) && chosen@ == hex@,
                None => color is None,
            },
        },
{
    let directory = chars_of(layout_params.workspace_directory);
    let mut member_links: Vec<(String, String)> = Vec::new();
    let mut folder_paths: Vec<String> = Vec::new();
    let mut index: usize = 0;
    while index < layout_params.member_links.len()
        invariant
            directory@ == layout_params.workspace_directory@,
            index <= layout_params.member_links@.len(),
            member_links@.len() == index,
            folder_paths@.len() == index,
            forall|i: int|
                0 <= i < index ==> (#[trigger] member_links@[i]).0@ == join_path(
                    layout_params.workspace_directory@,
                    layout_params.member_links@[i].link_name@,
                ) && member_links@[i].1@ == layout_params.member_links@[i].target_absolute_path@
                    && folder_paths@[i]@ == folder_entry(layout_params.member_links@[i].link_name@),
        decreases layout_params.member_links@.len() - index,
    {
        let link_spec = &layout_params.member_links[index];
        let name = chars_of(link_spec.link_name.as_str());
        let link_path = join_paths(directory.as_slice(), name.as_slice());
        member_links.push((string_of(link_path.as_slice()), link_spec.target_absolute_path.clone()));
        let mut folder: Vec<char> = Vec::new();
        extend_str(&mut folder, "./");
        extend_str(&mut folder, link_spec.link_name.as_str());
        folder_paths.push(string_of(folder.as_slice()));
        index = index + 1;
    }
    let window_identity = match layout_params.window_title_override {
        Some(title) => Some(
            (
                title.to_owned(),
                match layout_params.title_bar_color_hex {
                    Some(hex) => Some(hex.to_owned()),
                    None => None,
                },
            ),
        ),
        None => None,
    };
    WorkspaceLayoutPlan {
        workspace_directory: layout_params.workspace_directory.to_owned(),
        member_links,
        workspace_file_path: workspace_file_path_inside_dir(
            layout_params.workspace_directory,
            layout_params.workspace_name,
        ),
        folder_paths,
        window_identity,
    }
}

/// What is found at a link's path before it is (re)made.
pub enum ExistingLinkPath {
    /// Nothing is there.
    Absent,
    /// Its metadata could not be read, for the given reason.
    Unreadable(String),
    /// A symbolic link to the given target.
    Symlink { current_target: String },
    /// A directory, and whether it resolves to the expected target.
    Directory { resolves_to_expected: bool },
    /// Anything else: a file, or a directory elsewhere.
    Other,
}

/// What to do at a link's path.
pub enum LinkAction {
    /// Create the link.
    Create,
    /// Leave it: it already points at the target.
    Keep,
    /// Remove the stale link and create it again.
    Replace,
    /// Stop with this error.
    Fail(ReportalError),
}

/// The refusal for a path that holds real data.
pub open spec fn refusal_reason(link_path: Seq<char>) -> Seq<char> {
    "'"@ + link_path
        + "' already exists and is not a reportal-managed symlink; refusing to clobber — move the file out of the workspace directory and retry"@
}

/// What is at a link's path already reaches `expected`: a link to it, or
/// a directory that resolves to it.
pub open spec fn reaches_target(existing: ExistingLinkPath, expected: Seq<char>) -> bool {
    match existing {
        ExistingLinkPath::Symlink { current_target } => same_path(current_target@, expected),
        ExistingLinkPath::Directory { resolves_to_expected } => resolves_to_expected,
        _ => false,
    }
}

/// Decides what to do at a link's path: create where nothing is, keep a
/// link (or, for junctions, a directory) that already reaches the target,
/// replace a link to another target, and refuse anything else rather than
/// overwrite it.
pub fn decide_member_link(link_path: &str, expected_target: &str, existing: ExistingLinkPath) -> (action:
    LinkAction)
    ensures
        match existing {
            ExistingLinkPath::Absent => action is Create,
            ExistingLinkPath::Unreadable(why) => action matches LinkAction::Fail(
                ReportalError::CodeWorkspaceIoFailure { file_path, reason },
            ) && file_path@ == link_path@ && reason@ == why@,
            ExistingLinkPath::Symlink { current_target } => if same_path(
                current_target@,
                expected_target@,
            ) {
                action is Keep
            } else {
                action is Replace
            },
            ExistingLinkPath::Directory { resolves_to_expected: true } => action is Keep,
            _ => action matches LinkAction::Fail(ReportalError::ValidationFailure { field, reason })
                && field@ == "workspace member link"@ && reason@ == refusal_reason(link_path@),
        },
        action is Keep <==> reaches_target(existing, expected_target@),
{
    match existing {
        ExistingLinkPath::Absent => LinkAction::Create,
        ExistingLinkPath::Unreadable(why) => LinkAction::Fail(
            ReportalError::CodeWorkspaceIoFailure { file_path: link_path.to_owned(), reason: why },
        ),
        ExistingLinkPath::Symlink { current_target } => {
            let current = chars_of(current_target.as_str());
            let expected = chars_of(expected_target);
            if paths_equal(current.as_slice(), expected.as_slice()) {
                LinkAction::Keep
            } else {
                LinkAction::Replace
            }
        },
        ExistingLinkPath::Directory { resolves_to_expected } => {
            if resolves_to_expected {
                LinkAction::Keep
            } else {
                refuse(link_path)
            }
        },
        ExistingLinkPath::Other => refuse(link_path),
    }
}

fn refuse(link_path: &str) -> (action: LinkAction)
    ensures
        action matches LinkAction::Fail(ReportalError::ValidationFailure { field, reason }) && field@
            == "workspace member link"@ && reason@ == refusal_reason(link_path@),
{
    let mut reason: Vec<char> = Vec::new();
    extend_str(&mut reason, "'");
    extend_str(&mut reason, link_path);
    extend_str(
        &mut reason,
        "' already exists and is not a reportal-managed symlink; refusing to clobber — move the file out of the workspace directory and retry",
    );
    LinkAction::Fail(
        ReportalError::ValidationFailure {
            field: "workspace member link".to_owned(),
            reason: string_of(reason.as_slice()),
        },
    )
}


/// Laying a workspace out again changes none of its links: once a member
/// link has been created or replaced, it points at its target, and the
/// next decision for it is to keep it.
pub proof fn lemma_laid_out_link_is_kept(target: String)
    ensures
        reaches_target(ExistingLinkPath::Symlink { current_target: target }, target@),
{
}

} // verus!
