//! The workspace-rooted tree behind the repository listing: one section
//! per workspace with its surviving members in declared order, then the
//! repositories that belong to no workspace.

use vstd::prelude::*;
use crate::config::{
    RepoEntry, ReportalConfig, TagFilter, WorkspaceEntry, WorkspaceFilter, WorkspaceMember,
    containing_workspaces, listed_alias, member_is_repo, repo_lookup, same_text,
};
use crate::error::{ReportalError, is_repo_not_found, is_workspace_not_found};
use crate::key_order::key_position;
use crate::repo_tree_workspace_section::{SectionView, WorkspaceSection, member_views};
use crate::config::list_contains;
use crate::text::string_views;

verus! {

// ---------------------------------------------------------------------
// Specification
// ---------------------------------------------------------------------

/// The tag a filter restricts to; empty when it restricts nothing.
pub open spec fn tag_target(filter: TagFilter) -> Seq<char> {
    match filter {
        TagFilter::All => Seq::empty(),
        TagFilter::ByTag(tag) => tag@,
    }
}

/// The workspace a filter restricts to; empty when it restricts nothing.
pub open spec fn workspace_target(filter: WorkspaceFilter) -> Seq<char> {
    match filter {
        WorkspaceFilter::All => Seq::empty(),
        WorkspaceFilter::ByName(name) => name@,
    }
}

/// A repository survives the tag restriction.
pub open spec fn survives_tag(entry: RepoEntry, tag: Seq<char>) -> bool {
    tag.len() == 0 || entry.has_tag(tag)
}

/// A workspace survives the workspace restriction.
pub open spec fn workspace_considered(name: Seq<char>, target: Seq<char>) -> bool {
    target.len() == 0 || name == target
}

/// The first registered-repository member, from `from` on, whose alias
/// names no repository.
pub open spec fn first_unresolved_member(
    repos: Seq<(String, RepoEntry)>,
    members: Seq<WorkspaceMember>,
    from: int,
) -> Option<Seq<char>>
    decreases members.len() - from,
{
    if from < 0 || from >= members.len() {
        None
    } else {
        match members[from] {
            WorkspaceMember::RegisteredRepo(alias) => if repo_lookup(repos, alias@) is None {
                Some(alias@)
            } else {
                first_unresolved_member(repos, members, from + 1)
            },
            WorkspaceMember::InlinePath { .. } => first_unresolved_member(repos, members, from + 1),
        }
    }
}

/// The registered-repository members, from `from` on, that resolve and
/// survive the tag restriction, as (listed alias, repository entry).
pub open spec fn surviving_members(
    repos: Seq<(String, RepoEntry)>,
    members: Seq<WorkspaceMember>,
    tag: Seq<char>,
    from: int,
) -> Seq<(Seq<char>, RepoEntry)>
    decreases members.len() - from,
{
    if from < 0 || from >= members.len() {
        Seq::empty()
    } else {
        let rest = surviving_members(repos, members, tag, from + 1);
        match members[from] {
            WorkspaceMember::RegisteredRepo(alias) => match repo_lookup(repos, alias@) {
                Some(position) => if survives_tag(repos[position].1, tag) {
                    seq![(alias@, repos[position].1)] + rest
                } else {
                    rest
                },
                None => rest,
            },
            WorkspaceMember::InlinePath { .. } => rest,
        }
    }
}

/// The first unresolvable member alias among the considered workspaces,
/// from `from` on, in name order.
pub open spec fn first_section_error(
    repos: Seq<(String, RepoEntry)>,
    workspaces: Seq<(String, WorkspaceEntry)>,
    target: Seq<char>,
    from: int,
) -> Option<Seq<char>>
    decreases workspaces.len() - from,
{
    if from < 0 || from >= workspaces.len() {
        None
    } else if workspace_considered(workspaces[from].0@, target) && first_unresolved_member(
        repos,
        workspaces[from].1.members@,
        0,
    ) is Some {
        first_unresolved_member(repos, workspaces[from].1.members@, 0)
    } else {
        first_section_error(repos, workspaces, target, from + 1)
    }
}

/// The sections, from workspace `from` on: every considered workspace
/// with at least one surviving member.
pub open spec fn expected_sections(
    repos: Seq<(String, RepoEntry)>,
    workspaces: Seq<(String, WorkspaceEntry)>,
    target: Seq<char>,
    tag: Seq<char>,
    from: int,
) -> Seq<SectionView>
    decreases workspaces.len() - from,
{
    if from < 0 || from >= workspaces.len() {
        Seq::empty()
    } else {
        let members = surviving_members(repos, workspaces[from].1.members@, tag, 0);
        let rest = expected_sections(repos, workspaces, target, tag, from + 1);
        if workspace_considered(workspaces[from].0@, target) && members.len() > 0 {
            seq![(workspaces[from].0@, workspaces[from].1, members)] + rest
        } else {
            rest
        }
    }
}

/// The repositories, from `from` on, that survive the tag restriction and
/// that no workspace lists.
pub open spec fn unlisted_repos(
    repos: Seq<(String, RepoEntry)>,
    workspaces: Seq<(String, WorkspaceEntry)>,
    tag: Seq<char>,
    from: int,
) -> Seq<(Seq<char>, RepoEntry)>
    decreases repos.len() - from,
{
    if from < 0 || from >= repos.len() {
        Seq::empty()
    } else {
        let rest = unlisted_repos(repos, workspaces, tag, from + 1);
        if survives_tag(repos[from].1, tag) && containing_workspaces(
            workspaces,
            repos[from].0@,
            0,
        ).len() == 0 {
            seq![(repos[from].0@, repos[from].1)] + rest
        } else {
            rest
        }
    }
}

/// The unassigned section: empty while a workspace restriction is active.
pub open spec fn expected_unassigned(
    repos: Seq<(String, RepoEntry)>,
    workspaces: Seq<(String, WorkspaceEntry)>,
    target: Seq<char>,
    tag: Seq<char>,
) -> Seq<(Seq<char>, RepoEntry)> {
    if target.len() > 0 {
        Seq::empty()
    } else {
        unlisted_repos(repos, workspaces, tag, 0)
    }
}

/// The member aliases of the sections, section after section.
pub open spec fn section_aliases(sections: Seq<SectionView>) -> Seq<Seq<char>>
    decreases sections.len(),
{
    if sections.len() == 0 {
        Seq::empty()
    } else {
        section_aliases(sections.drop_last()) + sections.last().2.map_values(
            |member: (Seq<char>, RepoEntry)| member.0,
        )
    }
}

/// Every alias shown in the tree, as a set.
pub open spec fn visible_aliases(
    sections: Seq<SectionView>,
    unassigned: Seq<(Seq<char>, RepoEntry)>,
) -> Set<Seq<char>> {
    (section_aliases(sections) + unassigned.map_values(|member: (Seq<char>, RepoEntry)| member.0)).to_set()
}

/// The sections as plain values.
pub open spec fn section_views(sections: Seq<WorkspaceSection>) -> Seq<SectionView> {
    sections.map_values(|section: WorkspaceSection| section@)
}

/// The unassigned repositories as plain values.
pub open spec fn repo_ref_views(repos: Seq<(&String, &RepoEntry)>) -> Seq<(Seq<char>, RepoEntry)> {
    repos.map_values(|repo: (&String, &RepoEntry)| (repo.0@, *repo.1))
}

// ---------------------------------------------------------------------
// The grouping
// ---------------------------------------------------------------------

/// Workspace-rooted grouping of the registered repositories under the
/// active filters. A repository listed by several workspaces appears in
/// each of their sections; the distinct count counts it once.
pub struct RepoTreeGrouping<'config> {
    workspace_sections: Vec<WorkspaceSection<'config>>,
    unassigned_repos: Vec<(&'config String, &'config RepoEntry)>,
    distinct_repo_count: usize,
}

/// What a grouping shows: sections, unassigned repositories, distinct count.
pub type GroupingView = (Seq<SectionView>, Seq<(Seq<char>, RepoEntry)>, nat);

impl<'config> View for RepoTreeGrouping<'config> {
    type V = GroupingView;

    closed spec fn view(&self) -> GroupingView {
        (
            section_views(self.workspace_sections@),
            repo_ref_views(self.unassigned_repos@),
            self.distinct_repo_count as nat,
        )
    }
}

/// The inputs of a grouping: the configuration and both filters.
pub struct RepoTreeGroupingParams<'config> {
    pub loaded_config: &'config ReportalConfig,
    pub tag_filter: &'config TagFilter,
    pub workspace_filter: &'config WorkspaceFilter,
}

impl<'config> RepoTreeGroupingParams<'config> {
    /// The restricted workspace is not registered under that name.
    pub open spec fn names_missing_workspace(&self) -> bool {
        match *self.workspace_filter {
            WorkspaceFilter::All => false,
            WorkspaceFilter::ByName(name) => key_position(self.loaded_config.workspaces@, name@) is None,
        }
    }

    /// The first member alias of a considered workspace that names no
    /// repository.
    pub open spec fn unresolved_member(&self) -> Option<Seq<char>> {
        first_section_error(
            self.loaded_config.repos@,
            self.loaded_config.workspaces@,
            workspace_target(*self.workspace_filter),
            0,
        )
    }

    /// The grouping these inputs call for, when building succeeds.
    pub open spec fn expected_view(&self) -> GroupingView {
        let repos = self.loaded_config.repos@;
        let workspaces = self.loaded_config.workspaces@;
        let target = workspace_target(*self.workspace_filter);
        let tag = tag_target(*self.tag_filter);
        let sections = expected_sections(repos, workspaces, target, tag, 0);
        let unassigned = expected_unassigned(repos, workspaces, target, tag);
        (sections, unassigned, visible_aliases(sections, unassigned).len())
    }

    /// The workspace name the filter restricts to, or empty.
    fn workspace_restriction_target(&self) -> (target: &'config str)
        ensures
            target@ == workspace_target(*self.workspace_filter),
    {
        proof {
            reveal_strlit("");
        }
        match self.workspace_filter {
            WorkspaceFilter::All => "",
            WorkspaceFilter::ByName(requested_name) => requested_name.as_str(),
        }
    }

    /// The tag the filter restricts to, or empty.
    fn tag_restriction_target(&self) -> (target: &'config str)
        ensures
            target@ == tag_target(*self.tag_filter),
    {
        proof {
            reveal_strlit("");
        }
        match self.tag_filter {
            TagFilter::All => "",
            TagFilter::ByTag(target_tag) => target_tag.as_str(),
        }
    }

    /// Fails when the workspace filter names a workspace that does not exist.
    fn validate_workspace_target(&self) -> (checked: Result<(), ReportalError>)
        requires
            self.loaded_config.wf(),
        ensures
            checked is Ok <==> !self.names_missing_workspace(),
            checked matches Err(error) ==> is_workspace_not_found(
                error,
                workspace_target(*self.workspace_filter),
            ),
    {
        match self.workspace_filter {
            WorkspaceFilter::All => Ok(()),
            WorkspaceFilter::ByName(requested_name) => {
                match self.loaded_config.get_workspace(requested_name.as_str()) {
                    Ok(_) => Ok(()),
                    Err(error) => Err(error),
                }
            },
        }
    }

    /// The members of one workspace that resolve and survive the tag
    /// restriction, in declared order; fails on the first member alias
    /// that names no repository.
    fn resolve_surviving_members(&self, workspace_entry: &'config WorkspaceEntry) -> (resolved:
        Result<Vec<(&'config str, &'config RepoEntry)>, ReportalError>)
        requires
            self.loaded_config.wf(),
        ensures
            match first_unresolved_member(self.loaded_config.repos@, workspace_entry.members@, 0) {
                Some(alias) => resolved matches Err(error) && is_repo_not_found(error, alias),
                None => resolved matches Ok(members) && member_views(members@) == surviving_members(
                    self.loaded_config.repos@,
                    workspace_entry.members@,
                    tag_target(*self.tag_filter),
                    0,
                ),
            },
    {
        let config: &'config ReportalConfig = self.loaded_config;
        let tag = self.tag_restriction_target();
        let ghost repos = config.repos@;
        let ghost members = workspace_entry.members@;
        let mut surviving: Vec<(&'config str, &'config RepoEntry)> = Vec::new();
        let mut index: usize = 0;
        while index < workspace_entry.members.len()
            invariant
                config.wf(),
                config == self.loaded_config,
                repos == config.repos@,
                members == workspace_entry.members@,
                tag@ == tag_target(*self.tag_filter),
                index <= members.len(),
                first_unresolved_member(repos, members, 0) == first_unresolved_member(
                    repos,
                    members,
                    index as int,
                ),
                member_views(surviving@) + surviving_members(repos, members, tag@, index as int)
                    == surviving_members(repos, members, tag@, 0),
            decreases members.len() - index,
        {
            match &workspace_entry.members[index] {
                WorkspaceMember::RegisteredRepo(member_alias) => {
                    match config.get_repo(member_alias.as_str()) {
                        Ok(member_repo) => {
                            let keep = tag.is_empty() || member_repo.carries_tag(tag);
                            if keep {
                                let ghost before = surviving@;
                                surviving.push((member_alias.as_str(), member_repo));
                                assert(member_views(surviving@) =~= member_views(before).push(
                                    (member_alias@, *member_repo),
                                ));
                                assert(member_views(surviving@) + surviving_members(
                                    repos,
                                    members,
                                    tag@,
                                    index + 1,
                                ) =~= member_views(before) + surviving_members(
                                    repos,
                                    members,
                                    tag@,
                                    index as int,
                                ));
                            }
                        },
                        Err(error) => {
                            assert(first_unresolved_member(repos, members, index as int) == Some(
                                member_alias@,
                            ));
                            return Err(error);
                        },
                    }
                },
                WorkspaceMember::InlinePath { .. } => {},
            }
            index = index + 1;
        }
        assert(member_views(surviving@) + Seq::<(Seq<char>, RepoEntry)>::empty() =~= member_views(
            surviving@,
        ));
        Ok(surviving)
    }

    /// One section per considered workspace with surviving members, in
    /// name order.
    fn collect_workspace_sections(&self) -> (collected: Result<
        Vec<WorkspaceSection<'config>>,
        ReportalError,
    >)
        requires
            self.loaded_config.wf(),
        ensures
            match self.unresolved_member() {
                Some(alias) => collected matches Err(error) && is_repo_not_found(error, alias),
                None => collected matches Ok(sections) && section_views(sections@) == self.expected_view().0,
            },
    {
        let config: &'config ReportalConfig = self.loaded_config;
        let target = self.workspace_restriction_target();
        let restricted = !target.is_empty();
        let ghost repos = config.repos@;
        let ghost workspaces = config.workspaces@;
        let ghost tag = tag_target(*self.tag_filter);
        let mut sections: Vec<WorkspaceSection<'config>> = Vec::new();
        let mut index: usize = 0;
        while index < config.workspaces.len()
            invariant
                config.wf(),
                config == self.loaded_config,
                repos == config.repos@,
                workspaces == config.workspaces@,
                tag == tag_target(*self.tag_filter),
                target@ == workspace_target(*self.workspace_filter),
                restricted == (target@.len() > 0),
                index <= workspaces.len(),
                first_section_error(repos, workspaces, target@, 0) == first_section_error(
                    repos,
                    workspaces,
                    target@,
                    index as int,
                ),
                section_views(sections@) + expected_sections(repos, workspaces, target@, tag, index as int)
                    == expected_sections(repos, workspaces, target@, tag, 0),
            decreases workspaces.len() - index,
        {
            let workspace_name: &'config String = &config.workspaces[index].0;
            let workspace_entry: &'config WorkspaceEntry = &config.workspaces[index].1;
            let considered = !restricted || same_text(workspace_name.as_str(), target);
            if considered {
                match self.resolve_surviving_members(workspace_entry) {
                    Ok(member_repos) => {
                        if member_repos.len() > 0 {
                            let ghost before = sections@;
                            let section = WorkspaceSection { workspace_name, workspace_entry, member_repos };
                            sections.push(section);
                            assert(section_views(sections@) =~= section_views(before).push(section@));
                            assert(section_views(sections@) + expected_sections(
                                repos,
                                workspaces,
                                target@,
                                tag,
                                index + 1,
                            ) =~= section_views(before) + expected_sections(
                                repos,
                                workspaces,
                                target@,
                                tag,
                                index as int,
                            ));
                        }
                    },
                    Err(error) => {
                        return Err(error);
                    },
                }
            }
            index = index + 1;
        }
        assert(section_views(sections@) + Seq::<SectionView>::empty() =~= section_views(sections@));
        Ok(sections)
    }

    /// The repositories that survive the tag restriction and belong to no
    /// workspace; none while a workspace restriction is active.
    fn collect_unassigned_repos(&self) -> (unassigned: Vec<(&'config String, &'config RepoEntry)>)
        ensures
            repo_ref_views(unassigned@) == self.expected_view().1,
    {
        let config: &'config ReportalConfig = self.loaded_config;
        let target = self.workspace_restriction_target();
        let tag = self.tag_restriction_target();
        let mut unassigned: Vec<(&'config String, &'config RepoEntry)> = Vec::new();
        if !target.is_empty() {
            assert(repo_ref_views(unassigned@) =~= Seq::<(Seq<char>, RepoEntry)>::empty());
            return unassigned;
        }
        let ghost repos = config.repos@;
        let ghost workspaces = config.workspaces@;
        let mut index: usize = 0;
        while index < config.repos.len()
            invariant
                config == self.loaded_config,
                repos == config.repos@,
                workspaces == config.workspaces@,
                tag@ == tag_target(*self.tag_filter),
                target@.len() == 0,
                target@ == workspace_target(*self.workspace_filter),
                index <= repos.len(),
                repo_ref_views(unassigned@) + unlisted_repos(repos, workspaces, tag@, index as int)
                    == unlisted_repos(repos, workspaces, tag@, 0),
            decreases repos.len() - index,
        {
            let repo_alias: &'config String = &config.repos[index].0;
            let repo_entry: &'config RepoEntry = &config.repos[index].1;
            let survives = tag.is_empty() || repo_entry.carries_tag(tag);
            if survives {
                let containing = config.workspaces_containing_repo(repo_alias.as_str());
                if containing.len() == 0 {
                    let ghost before = unassigned@;
                    unassigned.push((repo_alias, repo_entry));
                    assert(repo_ref_views(unassigned@) =~= repo_ref_views(before).push(
                        (repo_alias@, *repo_entry),
                    ));
                    assert(repo_ref_views(unassigned@) + unlisted_repos(
                        repos,
                        workspaces,
                        tag@,
                        index + 1,
                    ) =~= repo_ref_views(before) + unlisted_repos(
                        repos,
                        workspaces,
                        tag@,
                        index as int,
                    ));
                }
            }
            index = index + 1;
        }
        assert(repo_ref_views(unassigned@) + Seq::<(Seq<char>, RepoEntry)>::empty() =~= repo_ref_views(
            unassigned@,
        ));
        unassigned
    }
}

/// The number of distinct aliases among the given names.
fn count_distinct(names: &Vec<String>) -> (count: usize)
    ensures
        count == string_views(names@).to_set().len(),
{
    let mut seen: Vec<String> = Vec::new();
    let mut index: usize = 0;
    while index < names.len()
        invariant
            index <= names@.len(),
            seen@.len() <= index,
            string_views(seen@).no_duplicates(),
            string_views(seen@).to_set() == string_views(names@.take(index as int)).to_set(),
        decreases names@.len() - index,
    {
        let ghost before = seen@;
        let ghost prefix = names@.take(index as int + 1);
        assert(string_views(prefix) =~= string_views(names@.take(index as int)).push(names@[index as int]@));
        proof {
            Seq::<Seq<char>>::lemma_to_set_insert_commutes(string_views(names@.take(index as int)), names@[index as int]@);
            assert(string_views(names@.take(index as int)).push(names@[index as int]@) =~= string_views(names@.take(index as int)) + seq![names@[index as int]@]);
        }
        if !list_contains(&seen, names[index].as_str()) {
            seen.push(names[index].clone());
            proof {
                assert(string_views(seen@) =~= string_views(before).push(names@[index as int]@));
                assert(string_views(before).push(names@[index as int]@) =~= string_views(before) + seq![names@[index as int]@]);
                Seq::<Seq<char>>::lemma_to_set_insert_commutes(string_views(before), names@[index as int]@);
                assert(!string_views(before).contains(names@[index as int]@)) by {
                    if string_views(before).contains(names@[index as int]@) {
                        let k = choose|k: int| 0 <= k < string_views(before).len() && string_views(before)[k] == names@[index as int]@;
                        assert(before[k]@ == names@[index as int]@);
                    }
                }
            }
        } else {
            proof {
                let k = choose|k: int| 0 <= k < before.len() && before[k]@ == names@[index as int]@;
                assert(string_views(before)[k] == names@[index as int]@);
                assert(string_views(before).to_set().contains(names@[index as int]@));
                assert(string_views(before).to_set().insert(names@[index as int]@) =~= string_views(before).to_set());
            }
        }
        index = index + 1;
    }
    proof {
        assert(names@.take(names@.len() as int) =~= names@);
        string_views(seen@).unique_seq_to_set();
    }
    seen.len()
}

impl<'config> RepoTreeGrouping<'config> {
    /// Builds the grouping: fails with `WorkspaceNotFound` when the
    /// workspace filter names no registered workspace, then with
    /// `RepoNotFound` for the first member alias of a considered workspace
    /// that names no repository.
    pub fn build(build_params: &RepoTreeGroupingParams<'config>) -> (built: Result<Self, ReportalError>)
        requires
            build_params.loaded_config.wf(),
        ensures
            build_params.names_missing_workspace() ==> (built matches Err(error)
                && is_workspace_not_found(error, workspace_target(*build_params.workspace_filter))),
            !build_params.names_missing_workspace() ==> match build_params.unresolved_member() {
                Some(alias) => built matches Err(error) && is_repo_not_found(error, alias),
                None => built matches Ok(tree) && tree@ == build_params.expected_view(),
            },
    {
        match build_params.validate_workspace_target() {
            Ok(()) => {},
            Err(error) => {
                return Err(error);
            },
        }
        let workspace_sections = match build_params.collect_workspace_sections() {
            Ok(sections) => sections,
            Err(error) => {
                return Err(error);
            },
        };
        let unassigned_repos = build_params.collect_unassigned_repos();
        let ghost sections_view = section_views(workspace_sections@);
        let ghost unassigned_view = repo_ref_views(unassigned_repos@);
        let mut shown: Vec<String> = Vec::new();
        let mut section_index: usize = 0;
        while section_index < workspace_sections.len()
            invariant
                section_index <= workspace_sections@.len(),
                sections_view == section_views(workspace_sections@),
                string_views(shown@) == section_aliases(sections_view.take(section_index as int)),
            decreases workspace_sections@.len() - section_index,
        {
            let section = &workspace_sections[section_index];
            let ghost shown_before = string_views(shown@);
            let mut member_index: usize = 0;
            while member_index < section.member_repos.len()
                invariant
                    member_index <= section.member_repos@.len(),
                    string_views(shown@) == shown_before + member_views(section.member_repos@).take(
                        member_index as int,
                    ).map_values(|member: (Seq<char>, RepoEntry)| member.0),
                decreases section.member_repos@.len() - member_index,
            {
                let ghost before = shown@;
                let member_alias: &str = section.member_repos[member_index].0;
                shown.push(member_alias.to_owned());
                assert(member_views(section.member_repos@)[member_index as int].0 == member_alias@);
                assert(string_views(shown@) =~= string_views(before).push(member_alias@));
                assert(string_views(shown@) =~= shown_before + member_views(section.member_repos@).take(
                    member_index + 1,
                ).map_values(|member: (Seq<char>, RepoEntry)| member.0));
                member_index = member_index + 1;
            }
            proof {
                let taken = sections_view.take(section_index + 1);
                assert(taken.drop_last() =~= sections_view.take(section_index as int));
                assert(taken.last() == workspace_sections@[section_index as int]@);
                assert(member_views(section.member_repos@).take(member_index as int) =~= member_views(
                    section.member_repos@,
                ));
            }
            section_index = section_index + 1;
        }
        let ghost from_sections = string_views(shown@);
        let mut orphan_index: usize = 0;
        while orphan_index < unassigned_repos.len()
            invariant
                orphan_index <= unassigned_repos@.len(),
                unassigned_view == repo_ref_views(unassigned_repos@),
                string_views(shown@) == from_sections + unassigned_view.take(orphan_index as int).map_values(
                    |member: (Seq<char>, RepoEntry)| member.0,
                ),
            decreases unassigned_repos@.len() - orphan_index,
        {
            let ghost before = shown@;
            let orphan_alias: String = unassigned_repos[orphan_index].0.clone();
            assert(unassigned_view[orphan_index as int].0 == orphan_alias@);
            shown.push(orphan_alias);
            assert(string_views(shown@) =~= string_views(before).push(orphan_alias@));
            assert(string_views(shown@) =~= from_sections + unassigned_view.take(orphan_index + 1).map_values(
                |member: (Seq<char>, RepoEntry)| member.0,
            ));
            orphan_index = orphan_index + 1;
        }
        proof {
            assert(sections_view.take(sections_view.len() as int) =~= sections_view);
            assert(unassigned_view.take(unassigned_view.len() as int) =~= unassigned_view);
        }
        let distinct_repo_count = count_distinct(&shown);
        Ok(RepoTreeGrouping { workspace_sections, unassigned_repos, distinct_repo_count })
    }

    /// The sections, in name order, each with its members in declared order.
    pub fn workspace_sections(&self) -> (sections: &[WorkspaceSection<'config>])
        ensures
            section_views(sections@) == self@.0,
    {
        self.workspace_sections.as_slice()
    }

    /// The repositories that belong to no workspace.
    pub fn unassigned_repos(&self) -> (unassigned: &[(&'config String, &'config RepoEntry)])
        ensures
            repo_ref_views(unassigned@) == self@.1,
    {
        self.unassigned_repos.as_slice()
    }

    /// How many distinct repositories the tree shows.
    pub fn distinct_repo_count(&self) -> (count: usize)
        ensures
            count == self@.2,
    {
        self.distinct_repo_count
    }

    /// The tree shows no section and no unassigned repository.
    pub fn is_empty(&self) -> (empty: bool)
        ensures
            empty == (self@.0.len() == 0 && self@.1.len() == 0),
    {
        self.workspace_sections.len() == 0 && self.unassigned_repos.len() == 0
    }
}

// ---------------------------------------------------------------------
// Laws
// ---------------------------------------------------------------------

proof fn lemma_surviving_members_include(
    repos: Seq<(String, RepoEntry)>,
    members: Seq<WorkspaceMember>,
    tag: Seq<char>,
    from: int,
    member: int,
    position: int,
)
    requires
        0 <= from <= member < members.len(),
        members[member] matches WorkspaceMember::RegisteredRepo(alias) && repo_lookup(repos, alias@)
            == Some(position) && survives_tag(repos[position].1, tag),
    ensures
        members[member] matches WorkspaceMember::RegisteredRepo(alias) && surviving_members(
            repos,
            members,
            tag,
            from,
        ).contains((alias@, repos[position].1)),
    decreases member - from,
{
    let rest = surviving_members(repos, members, tag, from + 1);
    if from < member {
        lemma_surviving_members_include(repos, members, tag, from + 1, member, position);
        let alias = members[member]->RegisteredRepo_0;
        let k = choose|k: int| 0 <= k < rest.len() && rest[k] == (alias@, repos[position].1);
        match members[from] {
            WorkspaceMember::RegisteredRepo(first) => match repo_lookup(repos, first@) {
                Some(p) => if survives_tag(repos[p].1, tag) {
                    let whole = seq![(first@, repos[p].1)] + rest;
                    assert(whole[k + 1] == rest[k]);
                } else {
                },
                None => {},
            },
            WorkspaceMember::InlinePath { .. } => {},
        }
    } else {
        let alias = members[member]->RegisteredRepo_0;
        let whole = seq![(alias@, repos[position].1)] + rest;
        assert(whole[0] == (alias@, repos[position].1));
    }
}

proof fn lemma_expected_sections_include(
    repos: Seq<(String, RepoEntry)>,
    workspaces: Seq<(String, WorkspaceEntry)>,
    target: Seq<char>,
    tag: Seq<char>,
    from: int,
    workspace: int,
)
    requires
        0 <= from <= workspace < workspaces.len(),
        workspace_considered(workspaces[workspace].0@, target),
        surviving_members(repos, workspaces[workspace].1.members@, tag, 0).len() > 0,
    ensures
        expected_sections(repos, workspaces, target, tag, from).contains(
            (
                workspaces[workspace].0@,
                workspaces[workspace].1,
                surviving_members(repos, workspaces[workspace].1.members@, tag, 0),
            ),
        ),
    decreases workspace - from,
{
    let rest = expected_sections(repos, workspaces, target, tag, from + 1);
    let section = (
        workspaces[workspace].0@,
        workspaces[workspace].1,
        surviving_members(repos, workspaces[workspace].1.members@, tag, 0),
    );
    if from < workspace {
        lemma_expected_sections_include(repos, workspaces, target, tag, from + 1, workspace);
        let k = choose|k: int| 0 <= k < rest.len() && rest[k] == section;
        let members = surviving_members(repos, workspaces[from].1.members@, tag, 0);
        if workspace_considered(workspaces[from].0@, target) && members.len() > 0 {
            let whole = seq![(workspaces[from].0@, workspaces[from].1, members)] + rest;
            assert(whole[k + 1] == rest[k]);
        }
    } else {
        let whole = seq![section] + rest;
        assert(whole[0] == section);
    }
}

proof fn lemma_section_aliases_include(sections: Seq<SectionView>, section: int, member: int)
    requires
        0 <= section < sections.len(),
        0 <= member < sections[section].2.len(),
    ensures
        section_aliases(sections).contains(sections[section].2[member].0),
    decreases sections.len(),
{
    let front = section_aliases(sections.drop_last());
    let back = sections.last().2.map_values(|m: (Seq<char>, RepoEntry)| m.0);
    if section == sections.len() - 1 {
        assert((front + back)[front.len() + member] == back[member]);
    } else {
        lemma_section_aliases_include(sections.drop_last(), section, member);
        let k = choose|k: int| 0 <= k < front.len() && front[k] == sections[section].2[member].0;
        assert((front + back)[k] == front[k]);
    }
}

proof fn lemma_containing_workspaces_nonempty(
    workspaces: Seq<(String, WorkspaceEntry)>,
    alias: Seq<char>,
    from: int,
    workspace: int,
)
    requires
        0 <= from <= workspace < workspaces.len(),
        workspaces[workspace].1.has_repo(alias),
    ensures
        containing_workspaces(workspaces, alias, from).len() > 0,
    decreases workspace - from,
{
    if from < workspace {
        lemma_containing_workspaces_nonempty(workspaces, alias, from + 1, workspace);
    }
}

proof fn lemma_unlisted_repos_include(
    repos: Seq<(String, RepoEntry)>,
    workspaces: Seq<(String, WorkspaceEntry)>,
    tag: Seq<char>,
    from: int,
    index: int,
)
    requires
        0 <= from <= index < repos.len(),
        survives_tag(repos[index].1, tag),
        containing_workspaces(workspaces, repos[index].0@, 0).len() == 0,
    ensures
        unlisted_repos(repos, workspaces, tag, from).contains((repos[index].0@, repos[index].1)),
    decreases index - from,
{
    let rest = unlisted_repos(repos, workspaces, tag, from + 1);
    if from < index {
        lemma_unlisted_repos_include(repos, workspaces, tag, from + 1, index);
        let k = choose|k: int| 0 <= k < rest.len() && rest[k] == (repos[index].0@, repos[index].1);
        if survives_tag(repos[from].1, tag) && containing_workspaces(workspaces, repos[from].0@, 0).len()
            == 0 {
            let whole = seq![(repos[from].0@, repos[from].1)] + rest;
            assert(whole[k + 1] == rest[k]);
        }
    } else {
        let whole = seq![(repos[index].0@, repos[index].1)] + rest;
        assert(whole[0] == (repos[index].0@, repos[index].1));
    }
}

/// A repository that a considered workspace lists, and that survives the
/// tag filter, is shown in that workspace's section under the alias the
/// workspace lists, however many other workspaces also list it.
pub proof fn lemma_listed_member_shown_in_its_section(
    params: RepoTreeGroupingParams,
    workspace: int,
    member: int,
    position: int,
)
    requires
        0 <= workspace < params.loaded_config.workspaces@.len(),
        workspace_considered(
            params.loaded_config.workspaces@[workspace].0@,
            workspace_target(*params.workspace_filter),
        ),
        0 <= member < params.loaded_config.workspaces@[workspace].1.members@.len(),
        params.loaded_config.workspaces@[workspace].1.members@[member] is RegisteredRepo,
        repo_lookup(
            params.loaded_config.repos@,
            listed_alias(params.loaded_config.workspaces@[workspace].1.members@[member]),
        ) == Some(position),
        survives_tag(params.loaded_config.repos@[position].1, tag_target(*params.tag_filter)),
    ensures
        exists|section: int|
            0 <= section < params.expected_view().0.len() && (#[trigger] params.expected_view().0[section]).0
                == params.loaded_config.workspaces@[workspace].0@ && params.expected_view().0[section].2.contains(
                (
                    listed_alias(params.loaded_config.workspaces@[workspace].1.members@[member]),
                    params.loaded_config.repos@[position].1,
                ),
            ),
{
    let repos = params.loaded_config.repos@;
    let workspaces = params.loaded_config.workspaces@;
    let tag = tag_target(*params.tag_filter);
    let target = workspace_target(*params.workspace_filter);
    let members = workspaces[workspace].1.members@;
    lemma_surviving_members_include(repos, members, tag, 0, member, position);
    lemma_expected_sections_include(repos, workspaces, target, tag, 0, workspace);
    let sections = expected_sections(repos, workspaces, target, tag, 0);
    let section = choose|k: int|
        0 <= k < sections.len() && sections[k] == (
            workspaces[workspace].0@,
            workspaces[workspace].1,
            surviving_members(repos, members, tag, 0),
        );
    assert(params.expected_view().0[section].0 == workspaces[workspace].0@);
}

/// Without filters, every registered repository is visible somewhere in
/// the tree: under each workspace that lists it by key, or else in the
/// unassigned section.
pub proof fn lemma_unfiltered_listing_hides_no_repo(params: RepoTreeGroupingParams, index: int)
    requires
        params.loaded_config.wf(),
        *params.tag_filter is All,
        *params.workspace_filter is All,
        0 <= index < params.loaded_config.repos@.len(),
    ensures
        visible_aliases(params.expected_view().0, params.expected_view().1).contains(
            params.loaded_config.repos@[index].0@,
        ),
{
    let repos = params.loaded_config.repos@;
    let workspaces = params.loaded_config.workspaces@;
    let key = repos[index].0@;
    let sections = params.expected_view().0;
    let unassigned = params.expected_view().1;
    let tail = unassigned.map_values(|m: (Seq<char>, RepoEntry)| m.0);
    let shown = section_aliases(sections) + tail;
    if containing_workspaces(workspaces, key, 0).len() == 0 {
        lemma_unlisted_repos_include(repos, workspaces, Seq::empty(), 0, index);
        let k = choose|k: int| 0 <= k < unassigned.len() && unassigned[k] == (key, repos[index].1);
        assert(shown[section_aliases(sections).len() + k] == key);
        assert(shown.to_set().contains(key));
    } else {
        lemma_some_workspace_lists(workspaces, key, 0);
        let workspace = choose|w: int| 0 <= w < workspaces.len() && workspaces[w].1.has_repo(key);
        let members = workspaces[workspace].1.members@;
        let member = choose|m: int| 0 <= m < members.len() && member_is_repo(members[m], key);
        assert(key_position(repos, key) is Some);
        let position = key_position(repos, key)->0;
        lemma_listed_member_shown_in_its_section(params, workspace, member, position);
        let section = choose|s: int|
            0 <= s < sections.len() && (#[trigger] sections[s]).0 == workspaces[workspace].0@
                && sections[s].2.contains((key, repos[position].1));
        let j = choose|j: int| 0 <= j < sections[section].2.len() && sections[section].2[j] == (key, repos[position].1);
        lemma_section_aliases_include(sections, section, j);
        let k = choose|k: int| 0 <= k < section_aliases(sections).len() && section_aliases(sections)[k] == key;
        assert(shown[k] == key);
        assert(shown.to_set().contains(key));
    }
}

proof fn lemma_some_workspace_lists(workspaces: Seq<(String, WorkspaceEntry)>, alias: Seq<char>, from: int)
    requires
        0 <= from,
        containing_workspaces(workspaces, alias, from).len() > 0,
    ensures
        exists|w: int| from <= w < workspaces.len() && workspaces[w].1.has_repo(alias),
    decreases workspaces.len() - from,
{
    if from < workspaces.len() && !workspaces[from].1.has_repo(alias) {
        lemma_some_workspace_lists(workspaces, alias, from + 1);
    }
}

/// While a workspace restriction is active the unassigned section is empty.
pub proof fn lemma_restricted_listing_has_no_unassigned(params: RepoTreeGroupingParams)
    requires
        workspace_target(*params.workspace_filter).len() > 0,
    ensures
        params.expected_view().1.len() == 0,
{
}

/// A repository shown in several sections counts once: the distinct count
/// is at most the number of rows the tree shows.
pub proof fn lemma_distinct_count_at_most_rows(params: RepoTreeGroupingParams)
    ensures
        params.expected_view().2 <= section_aliases(params.expected_view().0).len()
            + params.expected_view().1.len(),
{
    let sections = params.expected_view().0;
    let unassigned = params.expected_view().1;
    let tail = unassigned.map_values(|member: (Seq<char>, RepoEntry)| member.0);
    (section_aliases(sections) + tail).lemma_cardinality_of_set();
}

} // verus!
