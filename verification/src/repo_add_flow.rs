//! `rep add` as a sequence of steps: the library decides what to ask,
//! look up or run next, and the caller does it and reports back.
//!
//! A local path has its origin remote looked up, then the metadata is
//! asked for. A git URL first has its clone placed (a custom directory,
//! beside a registered repository or inside one), is cloned, and then the
//! metadata is asked for. The answers register the repository.

use vstd::prelude::*;
use crate::config::{ReportalConfig, RepoEntry};
use crate::error::ReportalError;
use crate::home::{expand_tilde_with_home, home_view, tilde_expansion};
use crate::key_order::key_position;
use crate::paths::{file_name, join_path};
use crate::repo_add::{
    AddSource, CloneDestination, GitCloneOperation, GitRemoteDetection, PlacementKind, ProcessRun,
    RegistrationAnswers, RegistrationContext, choice_views, classify_add_source, clone_placement_labels,
    cloned_repo_path, collect_registered_parent_directories, collect_registered_repo_directories,
    destination_from_choice, detected_remote_text, directory_choice_label, directory_choice_labels,
    git_url_repo_name, looks_like_git_url, parent_choices, placement_kind_from_choice, placement_menu,
    registered_entry, repo_name_from_git_url, suggest_alias_from_path, suggested_alias_text,
};
use crate::text::string_views;

verus! {

/// Which directory menu is open while placing a clone.
pub enum DirectoryMenu {
    /// Parent directories of the registered repositories.
    Siblings,
    /// The registered repositories' own directories.
    Children,
}

/// Where `rep add` stands.
pub enum AddState {
    /// The origin remote of a local directory is being looked up.
    DetectingRemote { local_path: String },
    /// The placement menu for a clone of `git_url` is open.
    ChoosingPlacement { git_url: String, suggested_alias: String },
    /// A directory menu for a clone of `git_url` is open.
    ChoosingDirectory { git_url: String, suggested_alias: String, menu: DirectoryMenu },
    /// The directory to clone `git_url` into is being typed.
    TypingDirectory { git_url: String, suggested_alias: String },
    /// `git_url` is being cloned into `clone_parent`.
    Cloning { git_url: String, suggested_alias: String, clone_parent: String },
    /// The metadata of the repository at `path` is being asked for.
    Describing { path: String, suggested_alias: String, detected_remote: String },
    /// Nothing is left to do.
    Finished,
}

/// What the caller reports back after doing an action.
pub enum AddEvent {
    /// The lookup of the origin remote.
    RemoteDetected(GitRemoteDetection),
    /// The placement menu answer.
    PlacementPicked(Option<usize>),
    /// The directory menu answer.
    DirectoryPicked(Option<usize>),
    /// The typed clone directory.
    DirectoryTyped(String),
    /// The clone directory could not be created, with the reason.
    DirectoryFailed(String),
    /// How `git clone` ran.
    CloneRan(ProcessRun),
    /// The metadata answers.
    Answered(RegistrationAnswers),
}

/// What the caller does next.
pub enum AddAction {
    /// Look up the origin remote of `directory`.
    DetectRemote { directory: String },
    /// Show where the clone comes from and ask how to place it.
    AskPlacement { source_url: String, labels: Vec<String> },
    /// Ask for one of the labelled directories.
    AskDirectory { prompt: String, labels: Vec<String> },
    /// Ask for the directory to clone into.
    AskCloneDirectory,
    /// Create `target_directory` if it is missing, then clone into it.
    Clone { git_url: String, target_directory: String },
    /// Ask for the metadata of the repository at `path`, pre-filling
    /// the alias and the remote.
    AskMetadata { path: String, suggested_alias: String, detected_remote: String },
    /// The repository is registered under `alias`: save the registry.
    Registered { alias: String },
    /// Stop with this error.
    Fail(ReportalError),
}

/// The alias suggested for a clone of `url`: its repository name, or
/// empty.
pub open spec fn url_alias(url: Seq<char>) -> Seq<char> {
    match git_url_repo_name(url) {
        Some(name) => name,
        None => Seq::empty(),
    }
}

/// The alias suggested for a local directory: its final component, or
/// empty.
pub open spec fn path_alias(path: Seq<char>) -> Seq<char> {
    match file_name(path) {
        Some(name) => name,
        None => Seq::empty(),
    }
}

/// The remote pre-filled for a local directory: its origin, or empty.
pub open spec fn remote_text(detection: GitRemoteDetection) -> Seq<char> {
    match detection {
        GitRemoteDetection::Found(url) => url@,
        _ => Seq::empty(),
    }
}

/// Every registered repository's own directory, as (alias, directory).
pub open spec fn repo_directory_choices(config: ReportalConfig, home: Option<String>) -> Seq<
    (Seq<char>, Seq<char>),
> {
    Seq::new(
        config.repos@.len(),
        |i: int| (config.repos@[i].0@, config.repos@[i].1.resolved_path_view(home)),
    )
}

/// The choices of a directory menu.
pub open spec fn menu_choices(menu: DirectoryMenu, config: ReportalConfig, home: Option<String>) -> Seq<
    (Seq<char>, Seq<char>),
> {
    match menu {
        DirectoryMenu::Siblings => parent_choices(config.repos@, home),
        DirectoryMenu::Children => repo_directory_choices(config, home),
    }
}

/// The placement menu for the registry.
pub open spec fn placement_menu_for(config: ReportalConfig, home: Option<String>) -> Seq<Seq<char>> {
    placement_menu(parent_choices(config.repos@, home).len() > 0, config.repos@.len() > 0)
}

/// The step asks for the metadata of the repository at `path`.
pub open spec fn describes(
    step: (AddState, AddAction),
    path: Seq<char>,
    alias: Seq<char>,
    remote: Seq<char>,
) -> bool {
    &&& step.0 matches AddState::Describing { path: p, suggested_alias: a, detected_remote: r } && p@ == path
        && a@ == alias && r@ == remote
    &&& step.1 matches AddAction::AskMetadata { path: p, suggested_alias: a, detected_remote: r } && p@ == path
        && a@ == alias && r@ == remote
}

/// The step clones `url` into `parent`.
pub open spec fn clones(step: (AddState, AddAction), url: Seq<char>, alias: Seq<char>, parent: Seq<char>) -> bool {
    &&& step.0 matches AddState::Cloning { git_url: u, suggested_alias: a, clone_parent: p } && u@ == url && a@
        == alias && p@ == parent
    &&& step.1 matches AddAction::Clone { git_url: u, target_directory: p } && u@ == url && p@ == parent
}

/// The step opens directory menu `menu` for a clone of `url`.
pub open spec fn opens_directory_menu(
    step: (AddState, AddAction),
    url: Seq<char>,
    alias: Seq<char>,
    menu: DirectoryMenu,
    prompt: Seq<char>,
    choices: Seq<(Seq<char>, Seq<char>)>,
) -> bool {
    &&& step.0 matches AddState::ChoosingDirectory { git_url: u, suggested_alias: a, menu: m } && u@ == url && a@
        == alias && m == menu
    &&& step.1 matches AddAction::AskDirectory { prompt: p, labels } && p@ == prompt && labels@.len()
        == choices.len() && forall|i: int|
        0 <= i < labels@.len() ==> (#[trigger] labels@[i])@ == directory_choice_label(choices[i])
}

/// The step stops with `error`.
pub open spec fn fails_with(step: (AddState, AddAction), error: ReportalError) -> bool {
    step.0 is Finished && step.1 == AddAction::Fail(error)
}

/// The step stops with a `ConfigIoFailure` whose reason is `reason`.
pub open spec fn fails_with_io(step: (AddState, AddAction), reason: Seq<char>) -> bool {
    &&& step.0 is Finished
    &&& step.1 matches AddAction::Fail(ReportalError::ConfigIoFailure { reason: r }) && r@ == reason
}

/// The event is the one the state waits for.
pub open spec fn awaits(state: AddState, event: AddEvent) -> bool {
    match state {
        AddState::DetectingRemote { .. } => event is RemoteDetected,
        AddState::ChoosingPlacement { .. } => event is PlacementPicked,
        AddState::ChoosingDirectory { .. } => event is DirectoryPicked,
        AddState::TypingDirectory { .. } => event is DirectoryTyped,
        AddState::Cloning { .. } => event is CloneRan || event is DirectoryFailed,
        AddState::Describing { .. } => event is Answered,
        AddState::Finished => false,
    }
}

/// What answering `state` with `event` leads to, for the registry
/// `before` (and `after` the step) and the home directory `home`.
pub open spec fn add_step(
    state: AddState,
    event: AddEvent,
    before: ReportalConfig,
    after: ReportalConfig,
    home: Option<String>,
    step: (AddState, AddAction),
) -> bool {
    match state {
        AddState::DetectingRemote { local_path } => match event {
            AddEvent::RemoteDetected(detection) => describes(
                step,
                local_path@,
                path_alias(local_path@),
                remote_text(detection),
            ),
            _ => false,
        },
        AddState::ChoosingPlacement { git_url, suggested_alias } => match event {
            AddEvent::PlacementPicked(chosen) => {
                let menu = placement_menu_for(before, home);
                match chosen {
                    Some(index) if index < menu.len() => if menu[index as int] == "Sibling of existing repo"@ {
                        opens_directory_menu(
                            step,
                            git_url@,
                            suggested_alias@,
                            DirectoryMenu::Siblings,
                            "Sibling of which repo?"@,
                            parent_choices(before.repos@, home),
                        )
                    } else if menu[index as int] == "Child of existing repo"@ {
                        opens_directory_menu(
                            step,
                            git_url@,
                            suggested_alias@,
                            DirectoryMenu::Children,
                            "Child of which repo?"@,
                            repo_directory_choices(before, home),
                        )
                    } else {
                        &&& step.0 matches AddState::TypingDirectory { git_url: u, suggested_alias: a } && u@
                            == git_url@ && a@ == suggested_alias@
                        &&& step.1 is AskCloneDirectory
                    },
                    _ => fails_with(step, ReportalError::SelectionCancelled),
                }
            },
            _ => false,
        },
        AddState::ChoosingDirectory { git_url, suggested_alias, menu } => match event {
            AddEvent::DirectoryPicked(chosen) => {
                let choices = menu_choices(menu, before, home);
                match chosen {
                    Some(index) if index < choices.len() => clones(
                        step,
                        git_url@,
                        suggested_alias@,
                        choices[index as int].1,
                    ),
                    _ => fails_with(step, ReportalError::SelectionCancelled),
                }
            },
            _ => false,
        },
        AddState::TypingDirectory { git_url, suggested_alias } => match event {
            AddEvent::DirectoryTyped(typed) => clones(
                step,
                git_url@,
                suggested_alias@,
                tilde_expansion(typed@, home_view(home)),
            ),
            _ => false,
        },
        AddState::Cloning { git_url, suggested_alias, clone_parent } => match event {
            AddEvent::DirectoryFailed(reason) => fails_with_io(step, reason@),
            AddEvent::CloneRan(run) => match run {
                ProcessRun::Exited { success: true, .. } => describes(
                    step,
                    join_path(clone_parent@, suggested_alias@),
                    suggested_alias@,
                    git_url@,
                ),
                ProcessRun::Exited { success: false, status_text } => fails_with_io(
                    step,
                    "git clone exited with status "@ + status_text@,
                ),
                ProcessRun::SpawnFailed(why) => fails_with_io(step, "Failed to run git: "@ + why@),
            },
            _ => false,
        },
        AddState::Describing { path, suggested_alias, detected_remote } => match event {
            AddEvent::Answered(answers) => {
                &&& step.0 is Finished
                &&& after.workspaces == before.workspaces
                &&& if key_position(before.repos@, answers.alias@) is None {
                    &&& step.1 matches AddAction::Registered { alias } && alias@ == answers.alias@
                    &&& exists|position: int, entry: RepoEntry|
                        0 <= position <= before.repos@.len() && registered_entry(entry, path@, answers)
                            && after.repos@ == before.repos@.insert(position, (answers.alias, entry))
                } else {
                    &&& after.repos@ == before.repos@
                    &&& step.1 matches AddAction::Fail(ReportalError::RepoAlreadyRegistered { alias }) && alias@
                        == answers.alias@
                }
            },
            _ => false,
        },
        AddState::Finished => false,
    }
}

/// The first step of `rep add` for what was given: a git URL opens the
/// placement menu (after showing the URL), anything else is a local
/// directory whose origin remote is looked up.
pub fn run_add(raw_input: &str, loaded_config: &ReportalConfig, home: &Option<String>) -> (start: (
    AddState,
    AddAction,
))
    requires
        loaded_config.wf(),
    ensures
        looks_like_git_url(raw_input@) ==> {
            &&& start.0 matches AddState::ChoosingPlacement { git_url, suggested_alias } && git_url@ == raw_input@
                && suggested_alias@ == url_alias(raw_input@)
            &&& start.1 matches AddAction::AskPlacement { source_url, labels } && source_url@ == raw_input@
                && string_views(labels@) == placement_menu_for(*loaded_config, *home)
        },
        !looks_like_git_url(raw_input@) ==> {
            &&& start.0 matches AddState::DetectingRemote { local_path } && local_path@ == raw_input@
            &&& start.1 matches AddAction::DetectRemote { directory } && directory@ == raw_input@
        },
{
    match classify_add_source(raw_input) {
        AddSource::LocalPath(local_path) => {
            let directory = local_path.clone();
            (AddState::DetectingRemote { local_path }, AddAction::DetectRemote { directory })
        },
        AddSource::GitUrl(git_url) => {
            let suggested_alias = suggested_alias_text(repo_name_from_git_url(git_url.as_str()));
            let labels = placement_labels(loaded_config, home);
            let source_url = git_url.clone();
            (AddState::ChoosingPlacement { git_url, suggested_alias }, AddAction::AskPlacement { source_url, labels })
        },
    }
}

/// The placement menu labels for the registry.
fn placement_labels(loaded_config: &ReportalConfig, home: &Option<String>) -> (labels: Vec<String>)
    ensures
        string_views(labels@) == placement_menu_for(*loaded_config, *home),
{
    let parents = collect_registered_parent_directories(loaded_config, home);
    assert(choice_views(parents@).len() == parents@.len());
    clone_placement_labels(parents.len() > 0, loaded_config.repos.len() > 0)
}

/// The choices of a directory menu, as (alias, directory).
fn directory_menu_choices<'config>(
    menu: &DirectoryMenu,
    loaded_config: &'config ReportalConfig,
    home: &Option<String>,
) -> (choices: Vec<(&'config str, String)>)
    ensures
        choice_views(choices@) == menu_choices(*menu, *loaded_config, *home),
{
    match menu {
        DirectoryMenu::Siblings => collect_registered_parent_directories(loaded_config, home),
        DirectoryMenu::Children => {
            let choices = collect_registered_repo_directories(loaded_config, home);
            assert(choice_views(choices@) =~= repo_directory_choices(*loaded_config, *home));
            choices
        },
    }
}

/// The step that starts a clone of `git_url` into `clone_parent`.
fn start_clone(git_url: String, suggested_alias: String, clone_parent: String) -> (step: (AddState, AddAction))
    ensures
        clones(step, git_url@, suggested_alias@, clone_parent@),
{
    let target_directory = clone_parent.clone();
    let url = git_url.clone();
    (
        AddState::Cloning { git_url, suggested_alias, clone_parent },
        AddAction::Clone { git_url: url, target_directory },
    )
}

/// The step that asks for the metadata of the repository at `path`.
fn start_describing(path: String, suggested_alias: String, detected_remote: String) -> (step: (AddState, AddAction))
    ensures
        describes(step, path@, suggested_alias@, detected_remote@),
{
    let shown_path = path.clone();
    let alias = suggested_alias.clone();
    let remote = detected_remote.clone();
    (
        AddState::Describing { path, suggested_alias, detected_remote },
        AddAction::AskMetadata { path: shown_path, suggested_alias: alias, detected_remote: remote },
    )
}

/// The step that stops with `error`.
fn stop(error: ReportalError) -> (step: (AddState, AddAction))
    ensures
        fails_with(step, error),
{
    (AddState::Finished, AddAction::Fail(error))
}

/// Answers the current step with what the caller found, asked or ran,
/// and returns the next state with the next action. Only the metadata
/// answers change the registry: they register the repository.
pub fn advance_add(state: AddState, event: AddEvent, loaded_config: &mut ReportalConfig, home: &Option<String>)
    -> (step: (AddState, AddAction))
    requires
        old(loaded_config).wf(),
        awaits(state, event),
    ensures
        final(loaded_config).wf(),
        crate::config::same_settings(*final(loaded_config), *old(loaded_config)),
        !(event is Answered) ==> *final(loaded_config) == *old(loaded_config),
        add_step(state, event, *old(loaded_config), *final(loaded_config), *home, step),
{
    match state {
        AddState::DetectingRemote { local_path } => match event {
            AddEvent::RemoteDetected(detection) => {
                let suggested_alias = suggested_alias_text(suggest_alias_from_path(local_path.as_str()));
                let ghost expected_remote = remote_text(detection);
                let detected_remote = detected_remote_text(detection);
                assert(suggested_alias@ =~= path_alias(local_path@));
                assert(detected_remote@ =~= expected_remote);
                start_describing(local_path, suggested_alias, detected_remote)
            },
            _ => stop(ReportalError::SelectionCancelled),
        },
        AddState::ChoosingPlacement { git_url, suggested_alias } => match event {
            AddEvent::PlacementPicked(chosen) => {
                let parents = collect_registered_parent_directories(loaded_config, home);
                assert(choice_views(parents@).len() == parents@.len());
                let has_sibling = parents.len() > 0;
                let has_child = loaded_config.repos.len() > 0;
                match placement_kind_from_choice(has_sibling, has_child, chosen) {
                    Ok(PlacementKind::Custom) => (
                        AddState::TypingDirectory { git_url, suggested_alias },
                        AddAction::AskCloneDirectory,
                    ),
                    Ok(PlacementKind::Sibling) => {
                        let labels = directory_choice_labels(&parents);
                        (
                            AddState::ChoosingDirectory { git_url, suggested_alias, menu: DirectoryMenu::Siblings },
                            AddAction::AskDirectory { prompt: "Sibling of which repo?".to_owned(), labels },
                        )
                    },
                    Ok(PlacementKind::Child) => {
                        let children = directory_menu_choices(&DirectoryMenu::Children, loaded_config, home);
                        let labels = directory_choice_labels(&children);
                        (
                            AddState::ChoosingDirectory { git_url, suggested_alias, menu: DirectoryMenu::Children },
                            AddAction::AskDirectory { prompt: "Child of which repo?".to_owned(), labels },
                        )
                    },
                    Err(error) => stop(error),
                }
            },
            _ => stop(ReportalError::SelectionCancelled),
        },
        AddState::ChoosingDirectory { git_url, suggested_alias, menu } => match event {
            AddEvent::DirectoryPicked(chosen) => {
                let choices = directory_menu_choices(&menu, loaded_config, home);
                let kind = match menu {
                    DirectoryMenu::Siblings => PlacementKind::Sibling,
                    DirectoryMenu::Children => PlacementKind::Child,
                };
                match destination_from_choice(kind, &choices, chosen) {
                    Ok(CloneDestination::SiblingOf(directory)) => start_clone(git_url, suggested_alias, directory),
                    Ok(CloneDestination::ChildOf(directory)) => start_clone(git_url, suggested_alias, directory),
                    Ok(CloneDestination::CustomPath) => stop(ReportalError::SelectionCancelled),
                    Err(error) => stop(error),
                }
            },
            _ => stop(ReportalError::SelectionCancelled),
        },
        AddState::TypingDirectory { git_url, suggested_alias } => match event {
            AddEvent::DirectoryTyped(typed) => {
                let clone_parent = expand_tilde_with_home(typed.as_str(), home);
                start_clone(git_url, suggested_alias, clone_parent)
            },
            _ => stop(ReportalError::SelectionCancelled),
        },
        AddState::Cloning { git_url, suggested_alias, clone_parent } => match event {
            AddEvent::DirectoryFailed(reason) => stop(ReportalError::ConfigIoFailure { reason }),
            AddEvent::CloneRan(run) => {
                let operation = GitCloneOperation {
                    git_url: git_url.as_str(),
                    target_directory: clone_parent.as_str(),
                };
                match operation.clone_outcome(run) {
                    Ok(()) => {
                        let path = cloned_repo_path(clone_parent.as_str(), suggested_alias.as_str());
                        start_describing(path, suggested_alias, git_url)
                    },
                    Err(error) => stop(error),
                }
            },
            _ => stop(ReportalError::SelectionCancelled),
        },
        AddState::Describing { path, suggested_alias, detected_remote } => match event {
            AddEvent::Answered(answers) => {
                let registration = RegistrationContext {
                    filesystem_path: path.as_str(),
                    suggested_alias,
                    detected_remote,
                };
                match registration.register_answers(loaded_config, answers) {
                    Ok(alias) => (AddState::Finished, AddAction::Registered { alias }),
                    Err(error) => stop(error),
                }
            },
            _ => stop(ReportalError::SelectionCancelled),
        },
        AddState::Finished => stop(ReportalError::SelectionCancelled),
    }
}

} // verus!
