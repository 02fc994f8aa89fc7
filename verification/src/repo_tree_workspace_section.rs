//! One workspace section of the grouped repository listing.

use vstd::prelude::*;
use crate::config::{RepoEntry, WorkspaceEntry};

verus! {

/// What a section shows: the workspace name, its entry, and the
/// surviving members as (listed alias, repository entry), in declared order.
pub type SectionView = (Seq<char>, WorkspaceEntry, Seq<(Seq<char>, RepoEntry)>);

/// The members of a section as plain values.
pub open spec fn member_views(members: Seq<(&str, &RepoEntry)>) -> Seq<(Seq<char>, RepoEntry)> {
    members.map_values(|member: (&str, &RepoEntry)| (member.0@, *member.1))
}

/// One workspace section of the grouped listing, borrowing from the
/// configuration it was built from.
pub struct WorkspaceSection<'config> {
    pub workspace_name: &'config String,
    pub workspace_entry: &'config WorkspaceEntry,
    pub member_repos: Vec<(&'config str, &'config RepoEntry)>,
}

impl<'config> View for WorkspaceSection<'config> {
    type V = SectionView;

    open spec fn view(&self) -> SectionView {
        (self.workspace_name@, *self.workspace_entry, member_views(self.member_repos@))
    }
}

impl<'config> WorkspaceSection<'config> {
    /// The workspace this section groups under.
    pub fn workspace_name(&self) -> (name: &'config str)
        ensures
            name@ == self@.0,
    {
        self.workspace_name.as_str()
    }

    /// The workspace entry, for its description.
    pub fn workspace_entry(&self) -> (entry: &'config WorkspaceEntry)
        ensures
            *entry == self@.1,
    {
        self.workspace_entry
    }

    /// The members that survived the filters, in declared order.
    pub fn member_repos(&self) -> (members: &[(&'config str, &'config RepoEntry)])
        ensures
            member_views(members@) == self@.2,
    {
        self.member_repos.as_slice()
    }
}

} // verus!
