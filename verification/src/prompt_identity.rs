//! The identity (label and accent color) of a working directory: the
//! workspace whose directory holds it, else the repository whose path
//! holds it, by longest matching prefix.

use vstd::prelude::*;
use vstd::utf8::encode_utf8;
use crate::config::{HexColor, RepoColor, ReportalConfig, TabTitle};
use crate::error::ReportalError;
use crate::home::home_view;
use crate::paths::{path_starts_with, starts_with_path};
use crate::text::chars_of;
use crate::workspace_operations::{WorkspaceRegenerator, workspace_directory_of};

verus! {

/// The length of a path in bytes, as `OsStr::len` counts it.
pub open spec fn byte_length(path: Seq<char>) -> nat {
    encode_utf8(path).len()
}

/// Candidate `index` holds the directory and no candidate is longer,
/// while earlier candidates of the same length lose to it only if they do
/// not hold the directory: the first longest candidate wins, and an empty
/// match never does.
pub open spec fn is_longest_match(candidates: Seq<Seq<char>>, directory: Seq<char>, index: int) -> bool {
    &&& 0 <= index < candidates.len()
    &&& path_starts_with(directory, candidates[index])
    &&& byte_length(candidates[index]) > 0
    &&& forall|j: int|
        0 <= j < candidates.len() && path_starts_with(directory, #[trigger] candidates[j]) ==> byte_length(
            candidates[j],
        ) <= byte_length(candidates[index])
    &&& forall|j: int|
        0 <= j < index && path_starts_with(directory, #[trigger] candidates[j]) ==> byte_length(
            candidates[j],
        ) < byte_length(candidates[index])
}

/// The candidate that holds the directory with the longest path, the
/// first one among equals; none when no candidate of positive length holds
/// it.
pub open spec fn longest_match(candidates: Seq<Seq<char>>, directory: Seq<char>) -> Option<int> {
    if exists|index: int| is_longest_match(candidates, directory, index) {
        Some(choose|index: int| is_longest_match(candidates, directory, index))
    } else {
        None
    }
}

proof fn lemma_longest_match_unique(candidates: Seq<Seq<char>>, directory: Seq<char>, a: int, b: int)
    requires
        is_longest_match(candidates, directory, a),
        is_longest_match(candidates, directory, b),
    ensures
        a == b,
{
    if a < b {
        assert(byte_length(candidates[a]) < byte_length(candidates[b]));
        assert(byte_length(candidates[b]) <= byte_length(candidates[a]));
    } else if b < a {
        assert(byte_length(candidates[b]) < byte_length(candidates[a]));
        assert(byte_length(candidates[a]) <= byte_length(candidates[b]));
    }
}

/// Finds the longest candidate path that holds the directory.
pub fn longest_prefix_match(candidates: &Vec<String>, directory: &str) -> (best: Option<usize>)
    ensures
        match best {
            Some(index) => longest_match(crate::text::string_views(candidates@), directory@) == Some(
                index as int,
            ),
            None => longest_match(crate::text::string_views(candidates@), directory@) is None,
        },
{
    let ghost paths = crate::text::string_views(candidates@);
    let directory_chars = chars_of(directory);
    let mut best_match_length: u128 = 0;
    let mut best: Option<usize> = None;
    let mut index: usize = 0;
    while index < candidates.len()
        invariant
            paths == crate::text::string_views(candidates@),
            directory_chars@ == directory@,
            index <= paths.len(),
            best is None ==> best_match_length == 0,
            best is None ==> forall|j: int|
                0 <= j < index && path_starts_with(directory@, #[trigger] paths[j]) ==> byte_length(
                    paths[j],
                ) == 0,
            best matches Some(b) ==> b < index && best_match_length == byte_length(paths[b as int])
                && is_longest_match(paths.take(index as int), directory@, b as int),
        decreases paths.len() - index,
    {
        let candidate = candidates[index].as_str();
        let candidate_chars = chars_of(candidate);
        let ghost prefix = paths.take(index + 1);
        assert(prefix.take(index as int) =~= paths.take(index as int));
        assert(paths[index as int] == candidate@);
        if starts_with_path(directory_chars.as_slice(), candidate_chars.as_slice()) {
            let length = crate::text::utf8_byte_count(candidate_chars.as_slice());
            if length > best_match_length {
                best_match_length = length;
                best = Some(index);
                assert forall|j: int|
                    0 <= j < prefix.len() && path_starts_with(directory@, #[trigger] prefix[j]) implies byte_length(
                        prefix[j],
                    ) <= byte_length(prefix[index as int]) by {
                    if j < index {
                        assert(prefix[j] == paths.take(index as int)[j]);
                    }
                }
                assert forall|j: int|
                    0 <= j < index && path_starts_with(directory@, #[trigger] prefix[j]) implies byte_length(
                        prefix[j],
                    ) < byte_length(prefix[index as int]) by {
                    assert(prefix[j] == paths.take(index as int)[j]);
                }
                assert(is_longest_match(prefix, directory@, index as int));
            } else {
                proof {
                    if let Some(b) = best {
                        assert forall|j: int|
                            0 <= j < prefix.len() && path_starts_with(directory@, #[trigger] prefix[j]) implies byte_length(
                                prefix[j],
                            ) <= byte_length(prefix[b as int]) by {
                            if j < index {
                                assert(prefix[j] == paths.take(index as int)[j]);
                            }
                        }
                        assert forall|j: int|
                            0 <= j < b && path_starts_with(directory@, #[trigger] prefix[j]) implies byte_length(
                                prefix[j],
                            ) < byte_length(prefix[b as int]) by {
                            assert(prefix[j] == paths.take(index as int)[j]);
                        }
                        assert(is_longest_match(prefix, directory@, b as int));
                    }
                }
            }
        } else {
            proof {
                if let Some(b) = best {
                    assert forall|j: int|
                        0 <= j < prefix.len() && path_starts_with(directory@, #[trigger] prefix[j]) implies byte_length(
                            prefix[j],
                        ) <= byte_length(prefix[b as int]) by {
                        if j < index {
                            assert(prefix[j] == paths.take(index as int)[j]);
                        }
                    }
                    assert forall|j: int|
                        0 <= j < b && path_starts_with(directory@, #[trigger] prefix[j]) implies byte_length(
                            prefix[j],
                        ) < byte_length(prefix[b as int]) by {
                        assert(prefix[j] == paths.take(index as int)[j]);
                    }
                    assert(is_longest_match(prefix, directory@, b as int));
                }
            }
        }
        index = index + 1;
    }
    assert(paths.take(paths.len() as int) =~= paths);
    proof {
        match best {
            Some(b) => {
                lemma_longest_match_exists_unique(paths, directory@, b as int);
            },
            None => {
                if exists|i: int| is_longest_match(paths, directory@, i) {
                    let i = choose|i: int| is_longest_match(paths, directory@, i);
                    assert(path_starts_with(directory@, paths[i]));
                }
            },
        }
    }
    best
}

proof fn lemma_longest_match_exists_unique(candidates: Seq<Seq<char>>, directory: Seq<char>, b: int)
    requires
        is_longest_match(candidates, directory, b),
    ensures
        longest_match(candidates, directory) == Some(b),
{
    let chosen = choose|index: int| is_longest_match(candidates, directory, index);
    lemma_longest_match_unique(candidates, directory, chosen, b);
}

/// A badge: the label to show and its accent color, if any.
pub struct PromptIdentity {
    pub display_label: String,
    pub accent_color: Option<HexColor>,
}

/// The label for an entry: its custom title, else its own name.
pub open spec fn title_label(title: TabTitle, name: Seq<char>) -> Seq<char> {
    match title {
        TabTitle::Custom(custom) => custom@,
        TabTitle::UseAlias => name,
    }
}

/// The identity carries the given label and the entry's color.
pub open spec fn identity_matches(identity: PromptIdentity, label: Seq<char>, color: RepoColor) -> bool {
    &&& identity.display_label@ == label
    &&& match color {
        RepoColor::Themed(hex) => identity.accent_color matches Some(accent) && accent@ == hex@,
        RepoColor::ResetToDefault => identity.accent_color is None,
    }
}

fn identity_for(title: &TabTitle, name: &str, color: &RepoColor) -> (identity: PromptIdentity)
    ensures
        identity_matches(identity, title_label(*title, name@), *color),
{
    let display_label = match title {
        TabTitle::Custom(custom_display_label) => custom_display_label.clone(),
        TabTitle::UseAlias => name.to_owned(),
    };
    let accent_color = match color.themed_hex_color() {
        Some(hex) => Some(hex.duplicate()),
        None => None,
    };
    PromptIdentity { display_label, accent_color }
}

/// The expanded paths of the repositories, in key order.
pub open spec fn repository_paths(config: ReportalConfig, home: Option<String>) -> Seq<Seq<char>> {
    config.repos@.map_values(|repo: (String, crate::config::RepoEntry)| repo.1.resolved_path_view(home))
}

/// The directories of the workspaces, in name order, when every one
/// resolves.
pub open spec fn workspace_directories(config: ReportalConfig, home: Option<String>) -> Option<Seq<Seq<char>>> {
    if forall|i: int|
        0 <= i < config.workspaces@.len() ==> (#[trigger] workspace_directory_of(
            config.workspaces@[i].1,
            config.workspaces@[i].0@,
            home_view(home),
        )) is Some {
        Some(
            config.workspaces@.map_values(
                |workspace: (String, crate::config::WorkspaceEntry)|
                    workspace_directory_of(workspace.1, workspace.0@, home_view(home))->0,
            ),
        )
    } else {
        None
    }
}

/// Resolves directories into badges against one registry.
pub struct PromptIdentityResolver<'configuration> {
    pub configuration_registry: &'configuration ReportalConfig,
}

impl<'configuration> PromptIdentityResolver<'configuration> {
    /// A resolver over the registry.
    pub fn for_configuration(configuration_registry: &'configuration ReportalConfig) -> (resolver: Self)
        ensures
            resolver.configuration_registry == configuration_registry,
    {
        PromptIdentityResolver { configuration_registry }
    }

    /// The workspace whose directory holds `current_directory` most
    /// closely. Fails with `ConfigIoFailure` when some workspace's
    /// directory needs the home directory and there is none.
    pub fn match_workspace_directory(&self, current_directory: &str, home: &Option<String>) -> (matched:
        Result<Option<PromptIdentity>, ReportalError>)
        requires
            self.configuration_registry.wf(),
        ensures
            match workspace_directories(*self.configuration_registry, *home) {
                None => matched matches Err(error) && error is ConfigIoFailure,
                Some(directories) => match longest_match(directories, current_directory@) {
                    None => matched matches Ok(None),
                    Some(index) => matched matches Ok(Some(identity)) && identity_matches(
                        identity,
                        title_label(
                            self.configuration_registry.workspaces@[index].1.title,
                            self.configuration_registry.workspaces@[index].0@,
                        ),
                        self.configuration_registry.workspaces@[index].1.color,
                    ),
                },
            },
    {
        let config = self.configuration_registry;
        let regenerator = WorkspaceRegenerator::for_config(config);
        let ghost workspaces = config.workspaces@;
        let mut directories: Vec<String> = Vec::new();
        let mut index: usize = 0;
        while index < config.workspaces.len()
            invariant
                config.wf(),
                config == self.configuration_registry,
                regenerator.config_registry == config,
                workspaces == config.workspaces@,
                index <= workspaces.len(),
                directories@.len() == index,
                forall|i: int|
                    0 <= i < index ==> #[trigger] workspace_directory_of(
                        workspaces[i].1,
                        workspaces[i].0@,
                        home_view(*home),
                    ) == Some(directories@[i]@),
            decreases workspaces.len() - index,
        {
            let name = config.workspaces[index].0.as_str();
            proof {
                crate::key_order::lemma_sorted_key_position(workspaces, index as int);
            }
            match regenerator.resolve_workspace_directory(name, home) {
                Ok(directory) => {
                    directories.push(directory);
                },
                Err(error) => {
                    assert(workspace_directory_of(
                        config.workspaces@[index as int].1,
                        config.workspaces@[index as int].0@,
                        home_view(*home),
                    ) is None);
                    assert(workspace_directories(*config, *home) is None);
                    assert(workspace_directories(*self.configuration_registry, *home) is None);
                    return Err(error);
                },
            }
            index = index + 1;
        }
        let ghost directory_views = crate::text::string_views(directories@);
        assert(workspace_directories(*config, *home) == Some(directory_views)) by {
            assert(forall|i: int|
                0 <= i < config.workspaces@.len() ==> (#[trigger] workspace_directory_of(
                    config.workspaces@[i].1,
                    config.workspaces@[i].0@,
                    home_view(*home),
                )) is Some);
            assert(config.workspaces@.map_values(
                |workspace: (String, crate::config::WorkspaceEntry)|
                    workspace_directory_of(workspace.1, workspace.0@, home_view(*home))->0,
            ) =~= directory_views);
        }
        match longest_prefix_match(&directories, current_directory) {
            Some(best) => {
                let workspace = &config.workspaces[best];
                Ok(Some(identity_for(&workspace.1.title, workspace.0.as_str(), &workspace.1.color)))
            },
            None => Ok(None),
        }
    }

    /// The repository whose expanded path holds `current_directory` most
    /// closely.
    pub fn match_repository_path(&self, current_directory: &str, home: &Option<String>) -> (matched:
        Option<PromptIdentity>)
        ensures
            match longest_match(repository_paths(*self.configuration_registry, *home), current_directory@) {
                None => matched is None,
                Some(index) => matched matches Some(identity) && identity_matches(
                    identity,
                    title_label(
                        self.configuration_registry.repos@[index].1.title,
                        self.configuration_registry.repos@[index].0@,
                    ),
                    self.configuration_registry.repos@[index].1.color,
                ),
            },
    {
        let config = self.configuration_registry;
        let mut paths: Vec<String> = Vec::new();
        let mut index: usize = 0;
        while index < config.repos.len()
            invariant
                index <= config.repos@.len(),
                paths@.len() == index,
                forall|i: int|
                    0 <= i < index ==> (#[trigger] paths@[i])@ == config.repos@[i].1.resolved_path_view(
                        *home,
                    ),
            decreases config.repos@.len() - index,
        {
            paths.push(config.repos[index].1.resolved_path(home));
            index = index + 1;
        }
        assert(crate::text::string_views(paths@) =~= repository_paths(*config, *home));
        match longest_prefix_match(&paths, current_directory) {
            Some(best) => {
                let repo = &config.repos[best];
                Some(identity_for(&repo.1.title, repo.0.as_str(), &repo.1.color))
            },
            None => None,
        }
    }

    /// The badge for a directory: a workspace match wins over a repository
    /// match; none when neither holds it.
    pub fn resolve_from_directory(&self, current_directory: &str, home: &Option<String>) -> (resolved:
        Result<Option<PromptIdentity>, ReportalError>)
        requires
            self.configuration_registry.wf(),
        ensures
            match workspace_directories(*self.configuration_registry, *home) {
                None => resolved matches Err(error) && error is ConfigIoFailure,
                Some(directories) => match longest_match(directories, current_directory@) {
                    Some(index) => resolved matches Ok(Some(identity)) && identity_matches(
                        identity,
                        title_label(
                            self.configuration_registry.workspaces@[index].1.title,
                            self.configuration_registry.workspaces@[index].0@,
                        ),
                        self.configuration_registry.workspaces@[index].1.color,
                    ),
                    None => match longest_match(
                        repository_paths(*self.configuration_registry, *home),
                        current_directory@,
                    ) {
                        None => resolved matches Ok(None),
                        Some(index) => resolved matches Ok(Some(identity)) && identity_matches(
                            identity,
                            title_label(
                                self.configuration_registry.repos@[index].1.title,
                                self.configuration_registry.repos@[index].0@,
                            ),
                            self.configuration_registry.repos@[index].1.color,
                        ),
                    },
                },
            },
    {
        match self.match_workspace_directory(current_directory, home) {
            Ok(Some(workspace_identity)) => Ok(Some(workspace_identity)),
            Ok(None) => Ok(self.match_repository_path(current_directory, home)),
            Err(error) => Err(error),
        }
    }
}

} // verus!
