//! The text of the grouped repository listing, as a stream of pieces
//! that each carry how to style them: a header, one block per workspace
//! section, the unassigned repositories, and the distinct count; or a
//! message when nothing matches.

use vstd::prelude::*;
use crate::config::{RepoColor, RepoEntry, TagFilter, WorkspaceFilter};
use crate::repo_tree_grouping::{GroupingView, RepoTreeGrouping, repo_ref_views, section_views};
use crate::repo_tree_workspace_section::{SectionView, WorkspaceSection, member_views};
use crate::text::{decimal, extend_str, join, join_strings, push_decimal, string_of, string_views, uppercase};

verus! {

/// How a piece of the listing is styled.
#[derive(PartialEq, Eq, Structural, Clone, Copy)]
pub enum TextStyle {
    Emphasis,
    Tag,
    Alias,
    Label,
    Path,
}

/// What a piece of the listing is.
#[derive(PartialEq, Eq, Structural, Clone, Copy)]
pub enum PartKind {
    /// Text as it is.
    Plain,
    /// Text in a style.
    Styled(TextStyle),
    /// The color swatch; the text is the `#RRGGBB` color, or empty for the
    /// default color.
    Swatch,
    /// Whether the path in the text exists: `yes` or `no`.
    Found,
}

/// One piece of the listing.
pub struct ListingPart {
    pub kind: PartKind,
    pub text: String,
}

/// A piece as plain values.
pub type PartView = (PartKind, Seq<char>);

/// The pieces as plain values.
pub open spec fn part_views(parts: Seq<ListingPart>) -> Seq<PartView> {
    parts.map_values(|part: ListingPart| (part.kind, part.text@))
}

/// Plain text.
pub open spec fn plain(text: Seq<char>) -> PartView {
    (PartKind::Plain, text)
}

/// Styled text.
pub open spec fn styled(style: TextStyle, text: Seq<char>) -> PartView {
    (PartKind::Styled(style), text)
}

/// The swatch text of a color.
pub open spec fn swatch_text(color: RepoColor) -> Seq<char> {
    match color {
        RepoColor::Themed(hex) => hex@,
        RepoColor::ResetToDefault => Seq::empty(),
    }
}

/// The first lines of a repository: swatch and uppercase alias, then its
/// path as configured.
pub open spec fn leaf_head(alias: Seq<char>, entry: RepoEntry) -> Seq<PartView> {
    seq![
        plain("     "@),
        (PartKind::Swatch, swatch_text(entry.color)),
        plain(" "@),
        styled(TextStyle::Alias, uppercase(alias)),
        plain("\n"@),
        plain("        "@),
        styled(TextStyle::Label, "Path:"@),
        plain(" "@),
        styled(TextStyle::Path, entry.path@),
        plain("\n"@),
    ]
}

/// The description line, when there is a description.
pub open spec fn leaf_description(entry: RepoEntry) -> Seq<PartView> {
    if entry.description@.len() > 0 {
        seq![
            plain("        "@),
            styled(TextStyle::Label, "Desc:"@),
            plain(" "@),
            plain(entry.description@),
            plain("\n"@),
        ]
    } else {
        Seq::empty()
    }
}

/// The tags line, when there are tags.
pub open spec fn leaf_tags(entry: RepoEntry) -> Seq<PartView> {
    if entry.tags@.len() > 0 {
        seq![
            plain("        "@),
            styled(TextStyle::Label, "Tags:"@),
            plain(" "@),
            styled(TextStyle::Tag, join(string_views(entry.tags@), ", "@)),
            plain("\n"@),
        ]
    } else {
        Seq::empty()
    }
}

/// Whether the expanded path exists, then a blank line.
pub open spec fn leaf_found(entry: RepoEntry, home: Option<String>) -> Seq<PartView> {
    seq![
        plain("        "@),
        styled(TextStyle::Label, "Found:"@),
        plain(" "@),
        (PartKind::Found, entry.resolved_path_view(home)),
        plain("\n"@),
        plain("\n"@),
    ]
}

/// The lines of one repository.
pub open spec fn leaf_parts(alias: Seq<char>, entry: RepoEntry, home: Option<String>) -> Seq<PartView> {
    leaf_head(alias, entry) + leaf_description(entry) + leaf_tags(entry) + leaf_found(entry, home)
}

/// The lines of the repositories in order.
pub open spec fn leaves_parts(members: Seq<(Seq<char>, RepoEntry)>, home: Option<String>) -> Seq<PartView>
    decreases members.len(),
{
    if members.len() == 0 {
        Seq::empty()
    } else {
        leaves_parts(members.drop_last(), home) + leaf_parts(members.last().0, members.last().1, home)
    }
}

/// A workspace section: its uppercase name, its description when it has
/// one, a blank line, and its members.
pub open spec fn section_parts(section: SectionView, home: Option<String>) -> Seq<PartView> {
    seq![plain("  "@), styled(TextStyle::Emphasis, uppercase(section.0)), plain("\n"@)] + (if section.1.description@.len()
        > 0 {
        seq![plain("  "@), styled(TextStyle::Tag, section.1.description@), plain("\n"@)]
    } else {
        Seq::empty()
    }) + seq![plain("\n"@)] + leaves_parts(section.2, home)
}

/// The sections in order.
pub open spec fn sections_parts(sections: Seq<SectionView>, home: Option<String>) -> Seq<PartView>
    decreases sections.len(),
{
    if sections.len() == 0 {
        Seq::empty()
    } else {
        sections_parts(sections.drop_last(), home) + section_parts(sections.last(), home)
    }
}

/// The message when nothing matches the filters.
pub open spec fn empty_state_message(tag_filter: TagFilter, workspace_filter: WorkspaceFilter) -> Seq<char> {
    match (tag_filter, workspace_filter) {
        (TagFilter::All, WorkspaceFilter::All) => "No repos registered. Use 'reportal add <path>' to add one."@,
        (TagFilter::ByTag(tag), WorkspaceFilter::All) => "No repos found with tag '"@ + tag@ + "'"@,
        (TagFilter::All, WorkspaceFilter::ByName(name)) => "No repos found in workspace '"@ + name@ + "'"@,
        (TagFilter::ByTag(tag), WorkspaceFilter::ByName(name)) => "No repos found in workspace '"@ + name@
            + "' with tag '"@ + tag@ + "'"@,
    }
}

/// The whole listing of a grouping.
pub open spec fn listing_parts(
    tree: GroupingView,
    tag_filter: TagFilter,
    workspace_filter: WorkspaceFilter,
    home: Option<String>,
) -> Seq<PartView> {
    if tree.0.len() == 0 && tree.1.len() == 0 {
        seq![plain(empty_state_message(tag_filter, workspace_filter) + "\n"@)]
    } else {
        seq![plain("\n"@), plain("  "@), styled(TextStyle::Emphasis, "RePortal"@), plain("\n\n"@)]
            + sections_parts(tree.0, home) + (if tree.1.len() > 0 {
            seq![plain("  "@), styled(TextStyle::Emphasis, "(unassigned)"@), plain("\n\n"@)]
                + leaves_parts(tree.1, home)
        } else {
            Seq::empty()
        }) + seq![
            plain("  "@),
            styled(TextStyle::Emphasis, decimal(tree.2)),
            plain(" repos total\n\n"@),
        ]
    }
}

fn push_part(parts: &mut Vec<ListingPart>, kind: PartKind, text: &str)
    ensures
        part_views(final(parts)@) == part_views(old(parts)@).push((kind, text@)),
{
    let ghost before = parts@;
    parts.push(ListingPart { kind, text: text.to_owned() });
    assert(part_views(parts@) =~= part_views(before).push((kind, text@)));
}

fn push_owned_part(parts: &mut Vec<ListingPart>, kind: PartKind, text: String)
    ensures
        part_views(final(parts)@) == part_views(old(parts)@).push((kind, text@)),
{
    let ghost before = parts@;
    parts.push(ListingPart { kind, text });
    assert(part_views(parts@) =~= part_views(before).push((kind, text@)));
}

/// Renders a grouping for the terminal.
pub struct RepoListingRenderer<'tree> {
    pub tree_grouping: &'tree RepoTreeGrouping<'tree>,
}

impl<'tree> RepoListingRenderer<'tree> {
    /// A renderer for the grouping.
    pub fn for_tree(tree_grouping: &'tree RepoTreeGrouping<'tree>) -> (renderer: Self)
        ensures
            renderer.tree_grouping == tree_grouping,
    {
        RepoListingRenderer { tree_grouping }
    }

    fn render_leaf_head(parts: &mut Vec<ListingPart>, repository_alias: &str, repo_entry: &RepoEntry)
        ensures
            part_views(final(parts)@) == part_views(old(parts)@) + leaf_head(repository_alias@, *repo_entry),
    {
        let ghost before = part_views(parts@);
        push_part(parts, PartKind::Plain, "     ");
        let swatch = match &repo_entry.color {
            RepoColor::Themed(hex) => hex.raw_value().to_owned(),
            RepoColor::ResetToDefault => String::new(),
        };
        push_owned_part(parts, PartKind::Swatch, swatch);
        push_part(parts, PartKind::Plain, " ");
        push_owned_part(
            parts,
            PartKind::Styled(TextStyle::Alias),
            crate::text::to_uppercase_text(repository_alias),
        );
        push_part(parts, PartKind::Plain, "\n");
        push_part(parts, PartKind::Plain, "        ");
        push_part(parts, PartKind::Styled(TextStyle::Label), "Path:");
        push_part(parts, PartKind::Plain, " ");
        push_part(parts, PartKind::Styled(TextStyle::Path), repo_entry.path.as_str());
        push_part(parts, PartKind::Plain, "\n");
        assert(part_views(parts@) =~= before + leaf_head(repository_alias@, *repo_entry));
    }

    fn render_leaf_description(parts: &mut Vec<ListingPart>, repo_entry: &RepoEntry)
        ensures
            part_views(final(parts)@) == part_views(old(parts)@) + leaf_description(*repo_entry),
    {
        let ghost before = part_views(parts@);
        if !repo_entry.description.as_str().is_empty() {
            push_part(parts, PartKind::Plain, "        ");
            push_part(parts, PartKind::Styled(TextStyle::Label), "Desc:");
            push_part(parts, PartKind::Plain, " ");
            push_part(parts, PartKind::Plain, repo_entry.description.as_str());
            push_part(parts, PartKind::Plain, "\n");
        }
        assert(part_views(parts@) =~= before + leaf_description(*repo_entry));
    }

    fn render_leaf_tags(parts: &mut Vec<ListingPart>, repo_entry: &RepoEntry)
        ensures
            part_views(final(parts)@) == part_views(old(parts)@) + leaf_tags(*repo_entry),
    {
        let ghost before = part_views(parts@);
        if repo_entry.tags.len() > 0 {
            push_part(parts, PartKind::Plain, "        ");
            push_part(parts, PartKind::Styled(TextStyle::Label), "Tags:");
            push_part(parts, PartKind::Plain, " ");
            push_owned_part(
                parts,
                PartKind::Styled(TextStyle::Tag),
                join_strings(&repo_entry.tags, ", "),
            );
            push_part(parts, PartKind::Plain, "\n");
        }
        assert(part_views(parts@) =~= before + leaf_tags(*repo_entry));
    }

    fn render_leaf_found(parts: &mut Vec<ListingPart>, repo_entry: &RepoEntry, home: &Option<String>)
        ensures
            part_views(final(parts)@) == part_views(old(parts)@) + leaf_found(*repo_entry, *home),
    {
        let ghost before = part_views(parts@);
        push_part(parts, PartKind::Plain, "        ");
        push_part(parts, PartKind::Styled(TextStyle::Label), "Found:");
        push_part(parts, PartKind::Plain, " ");
        push_owned_part(parts, PartKind::Found, repo_entry.resolved_path(home));
        push_part(parts, PartKind::Plain, "\n");
        push_part(parts, PartKind::Plain, "\n");
        assert(part_views(parts@) =~= before + leaf_found(*repo_entry, *home));
    }

    fn render_repo_leaf(parts: &mut Vec<ListingPart>, repository_alias: &str, repo_entry: &RepoEntry, home: &Option<String>)
        ensures
            part_views(final(parts)@) == part_views(old(parts)@) + leaf_parts(
                repository_alias@,
                *repo_entry,
                *home,
            ),
    {
        let ghost before = part_views(parts@);
        Self::render_leaf_head(parts, repository_alias, repo_entry);
        Self::render_leaf_description(parts, repo_entry);
        Self::render_leaf_tags(parts, repo_entry);
        Self::render_leaf_found(parts, repo_entry, home);
        assert(part_views(parts@) =~= before + leaf_parts(repository_alias@, *repo_entry, *home));
    }

    fn render_leaves(parts: &mut Vec<ListingPart>, members: &[(&str, &RepoEntry)], home: &Option<String>)
        ensures
            part_views(final(parts)@) == part_views(old(parts)@) + leaves_parts(
                member_views(members@),
                *home,
            ),
    {
        let ghost start = part_views(parts@);
        let ghost all = member_views(members@);
        let mut index: usize = 0;
        while index < members.len()
            invariant
                all == member_views(members@),
                index <= members@.len(),
                part_views(parts@) == start + leaves_parts(all.take(index as int), *home),
            decreases members@.len() - index,
        {
            let ghost before = part_views(parts@);
            let (alias, entry) = members[index];
            Self::render_repo_leaf(parts, alias, entry, home);
            proof {
                let taken = all.take(index + 1);
                assert(taken.drop_last() =~= all.take(index as int));
                assert(taken.last() == (alias@, *entry));
                assert(part_views(parts@) =~= start + leaves_parts(taken, *home));
            }
            index = index + 1;
        }
        assert(all.take(all.len() as int) =~= all);
    }

    fn render_orphans(parts: &mut Vec<ListingPart>, members: &[(&String, &RepoEntry)], home: &Option<String>)
        ensures
            part_views(final(parts)@) == part_views(old(parts)@) + leaves_parts(
                repo_ref_views(members@),
                *home,
            ),
    {
        let ghost start = part_views(parts@);
        let ghost all = repo_ref_views(members@);
        let mut index: usize = 0;
        while index < members.len()
            invariant
                all == repo_ref_views(members@),
                index <= members@.len(),
                part_views(parts@) == start + leaves_parts(all.take(index as int), *home),
            decreases members@.len() - index,
        {
            let (alias, entry) = members[index];
            Self::render_repo_leaf(parts, alias.as_str(), entry, home);
            proof {
                let taken = all.take(index + 1);
                assert(taken.drop_last() =~= all.take(index as int));
                assert(taken.last() == (alias@, *entry));
                assert(part_views(parts@) =~= start + leaves_parts(taken, *home));
            }
            index = index + 1;
        }
        assert(all.take(all.len() as int) =~= all);
    }

    fn render_workspace_section(parts: &mut Vec<ListingPart>, workspace_section: &WorkspaceSection<'_>, home: &Option<String>)
        ensures
            part_views(final(parts)@) == part_views(old(parts)@) + section_parts(
                workspace_section@,
                *home,
            ),
    {
        let ghost before = part_views(parts@);
        push_part(parts, PartKind::Plain, "  ");
        push_owned_part(
            parts,
            PartKind::Styled(TextStyle::Emphasis),
            crate::text::to_uppercase_text(workspace_section.workspace_name()),
        );
        push_part(parts, PartKind::Plain, "\n");
        let ghost after_name = part_views(parts@);
        let description = workspace_section.workspace_entry().description.as_str();
        if !description.is_empty() {
            push_part(parts, PartKind::Plain, "  ");
            push_part(parts, PartKind::Styled(TextStyle::Tag), description);
            push_part(parts, PartKind::Plain, "\n");
        }
        let ghost after_description = part_views(parts@);
        push_part(parts, PartKind::Plain, "\n");
        let ghost after_blank = part_views(parts@);
        Self::render_leaves(parts, workspace_section.member_repos(), home);
        proof {
            let section = workspace_section@;
            assert(after_name =~= before + seq![
                plain("  "@),
                styled(TextStyle::Emphasis, uppercase(section.0)),
                plain("\n"@),
            ]);
            let description_part = if section.1.description@.len() > 0 {
                seq![plain("  "@), styled(TextStyle::Tag, section.1.description@), plain("\n"@)]
            } else {
                Seq::<PartView>::empty()
            };
            assert(after_description =~= after_name + description_part);
            assert(after_blank =~= after_description + seq![plain("\n"@)]);
            assert(part_views(parts@) =~= before + section_parts(section, *home));
        }
    }

    /// The listing: the message for the filters when the grouping is
    /// empty, else the header, each section, the unassigned repositories
    /// and the distinct count.
    pub fn render(&self, tag_filter: &TagFilter, workspace_filter: &WorkspaceFilter, home: &Option<String>) -> (parts:
        Vec<ListingPart>)
        ensures
            part_views(parts@) == listing_parts(self.tree_grouping@, *tag_filter, *workspace_filter, *home),
    {
        let tree = self.tree_grouping;
        let mut parts: Vec<ListingPart> = Vec::new();
        if tree.is_empty() {
            let message = Self::render_empty_state(tag_filter, workspace_filter);
            push_owned_part(&mut parts, PartKind::Plain, message);
            assert(part_views(parts@) =~= listing_parts(tree@, *tag_filter, *workspace_filter, *home));
            return parts;
        }
        push_part(&mut parts, PartKind::Plain, "\n");
        push_part(&mut parts, PartKind::Plain, "  ");
        push_part(&mut parts, PartKind::Styled(TextStyle::Emphasis), "RePortal");
        push_part(&mut parts, PartKind::Plain, "\n\n");
        let ghost header = part_views(parts@);
        let sections = tree.workspace_sections();
        let ghost all = section_views(sections@);
        let mut index: usize = 0;
        while index < sections.len()
            invariant
                all == section_views(sections@),
                index <= sections@.len(),
                part_views(parts@) == header + sections_parts(all.take(index as int), *home),
            decreases sections@.len() - index,
        {
            Self::render_workspace_section(&mut parts, &sections[index], home);
            proof {
                let taken = all.take(index + 1);
                assert(taken.drop_last() =~= all.take(index as int));
                assert(taken.last() == sections@[index as int]@);
                assert(part_views(parts@) =~= header + sections_parts(taken, *home));
            }
            index = index + 1;
        }
        assert(all.take(all.len() as int) =~= all);
        let ghost after_sections = part_views(parts@);
        let unassigned = tree.unassigned_repos();
        if unassigned.len() > 0 {
            push_part(&mut parts, PartKind::Plain, "  ");
            push_part(&mut parts, PartKind::Styled(TextStyle::Emphasis), "(unassigned)");
            push_part(&mut parts, PartKind::Plain, "\n\n");
            Self::render_orphans(&mut parts, unassigned, home);
        }
        let ghost after_unassigned = part_views(parts@);
        push_part(&mut parts, PartKind::Plain, "  ");
        let mut count: Vec<char> = Vec::new();
        push_decimal(&mut count, tree.distinct_repo_count());
        push_owned_part(&mut parts, PartKind::Styled(TextStyle::Emphasis), string_of(count.as_slice()));
        push_part(&mut parts, PartKind::Plain, " repos total\n\n");
        proof {
            let view = tree@;
            let unassigned_part = if view.1.len() > 0 {
                seq![plain("  "@), styled(TextStyle::Emphasis, "(unassigned)"@), plain("\n\n"@)]
                    + leaves_parts(view.1, *home)
            } else {
                Seq::<PartView>::empty()
            };
            assert(after_unassigned =~= after_sections + unassigned_part);
            assert(part_views(parts@) =~= after_unassigned + seq![
                plain("  "@),
                styled(TextStyle::Emphasis, decimal(view.2)),
                plain(" repos total\n\n"@),
            ]);
            assert(part_views(parts@) =~= listing_parts(view, *tag_filter, *workspace_filter, *home));
        }
        parts
    }

    fn render_empty_state(tag_filter: &TagFilter, workspace_filter: &WorkspaceFilter) -> (message: String)
        ensures
            message@ == empty_state_message(*tag_filter, *workspace_filter) + "\n"@,
    {
        let mut text: Vec<char> = Vec::new();
        match (tag_filter, workspace_filter) {
            (TagFilter::All, WorkspaceFilter::All) => {
                extend_str(&mut text, "No repos registered. Use 'reportal add <path>' to add one.");
            },
            (TagFilter::ByTag(target_tag), WorkspaceFilter::All) => {
                extend_str(&mut text, "No repos found with tag '");
                extend_str(&mut text, target_tag.as_str());
                extend_str(&mut text, "'");
            },
            (TagFilter::All, WorkspaceFilter::ByName(target_workspace)) => {
                extend_str(&mut text, "No repos found in workspace '");
                extend_str(&mut text, target_workspace.as_str());
                extend_str(&mut text, "'");
            },
            (TagFilter::ByTag(target_tag), WorkspaceFilter::ByName(target_workspace)) => {
                extend_str(&mut text, "No repos found in workspace '");
                extend_str(&mut text, target_workspace.as_str());
                extend_str(&mut text, "' with tag '");
                extend_str(&mut text, target_tag.as_str());
                extend_str(&mut text, "'");
            },
        }
        extend_str(&mut text, "\n");
        string_of(text.as_slice())
    }
}

} // verus!
