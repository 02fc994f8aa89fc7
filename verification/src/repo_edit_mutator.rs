//! The state of a `rep edit` session: the text of each editable field as
//! the menu shows it, and one edit per field that writes the registry and
//! refreshes that text.

use vstd::prelude::*;
use crate::config::{repo_lookup, RepoColor, RepoEntry, ReportalConfig, TabTitle};
use crate::error::{is_repo_not_found, ReportalError};
use crate::home::{expand_tilde_with_home, home_view, tilde_expansion};
use crate::key_order::keys_sorted;
use crate::prompts::{kept_tags, parse_comma_separated_tags, ColorEditResult};
use crate::text::{
    chars_of, extend_str, join, join_strings, slice_chars, split_on, string_of, string_views, trim, trimmed,
};
use crate::workspace_layout::WorkspaceLayoutPlan;
use crate::workspace_operations::{regeneration_result, WorkspaceRegenerator};

verus! {

/// A change to one field of a repository.
pub enum RepoFieldEdit {
    Path(String),
    Description(String),
    Tags(Vec<String>),
    Title(TabTitle),
    Color(RepoColor),
}

/// The entry with the field changed.
pub open spec fn with_edit(entry: RepoEntry, edit: RepoFieldEdit) -> RepoEntry {
    match edit {
        RepoFieldEdit::Path(path) => RepoEntry { path, ..entry },
        RepoFieldEdit::Description(description) => RepoEntry { description, ..entry },
        RepoFieldEdit::Tags(tags) => RepoEntry { tags, ..entry },
        RepoFieldEdit::Title(title) => RepoEntry { title, ..entry },
        RepoFieldEdit::Color(color) => RepoEntry { color, ..entry },
    }
}

/// The registry is the old one with repository `index` replaced by
/// `entry` under the same key.
pub open spec fn replaced_repo(before: ReportalConfig, after: ReportalConfig, index: int, entry: RepoEntry) -> bool {
    &&& after.repos@ == before.repos@.update(index, (before.repos@[index].0, entry))
    &&& after.workspaces == before.workspaces
    &&& after.commands == before.commands
    &&& after.ai_tools == before.ai_tools
    &&& after.default_ai_tool == before.default_ai_tool
    &&& after.default_editor == before.default_editor
    &&& after.path_on_select == before.path_on_select
}

/// Applies a field change to the repository at `index`.
pub fn edit_repo_field(loaded_config: &mut ReportalConfig, index: usize, edit: RepoFieldEdit)
    requires
        old(loaded_config).wf(),
        index < old(loaded_config).repos@.len(),
    ensures
        final(loaded_config).wf(),
        replaced_repo(
            *old(loaded_config),
            *final(loaded_config),
            index as int,
            with_edit(old(loaded_config).repos@[index as int].1, edit),
        ),
{
    let ghost before = loaded_config.repos@;
    let (key, mut entry) = loaded_config.repos.remove(index);
    match edit {
        RepoFieldEdit::Path(path) => {
            entry.path = path;
        },
        RepoFieldEdit::Description(description) => {
            entry.description = description;
        },
        RepoFieldEdit::Tags(tags) => {
            entry.tags = tags;
        },
        RepoFieldEdit::Title(title) => {
            entry.title = title;
        },
        RepoFieldEdit::Color(color) => {
            entry.color = color;
        },
    }
    loaded_config.repos.insert(index, (key, entry));
    proof {
        let after = loaded_config.repos@;
        assert(after =~= before.update(index as int, (before[index as int].0, with_edit(before[index as int].1, edit))));
        assert forall|i: int, j: int| 0 <= i < j < after.len() implies crate::key_order::key_less(
            #[trigger] after[i].0@,
            #[trigger] after[j].0@,
        ) by {
            assert(after[i].0 == before[i].0);
            assert(after[j].0 == before[j].0);
        }
        assert forall|k: int| 0 <= k < after.len() implies keys_sorted(#[trigger] after[k].1.commands@) by {
            if k != index {
                assert(after[k] == before[k]);
            } else {
                assert(after[k].1.commands == before[k].1.commands);
            }
        }
    }
}

/// The text as the menu shows it: its first 50 characters when longer.
pub open spec fn menu_cut(s: Seq<char>) -> Seq<char> {
    if s.len() > 50 {
        s.take(50)
    } else {
        s
    }
}

/// Cuts a text to its first 50 characters when it is longer.
fn truncate_for_menu(display_text: &str) -> (shown: String)
    ensures
        shown@ == menu_cut(display_text@),
{
    let characters = chars_of(display_text);
    if characters.len() <= 50 {
        return display_text.to_owned();
    }
    let kept = slice_chars(characters.as_slice(), 0, 50);
    assert(kept@ =~= display_text@.take(50));
    string_of(kept.as_slice())
}

/// The text shown for a tab title: the custom title, or nothing.
pub open spec fn title_text(title: TabTitle) -> Seq<char> {
    match title {
        TabTitle::Custom(custom) => custom@,
        TabTitle::UseAlias => Seq::empty(),
    }
}

/// The text shown for a color: its `#RRGGBB` value, or nothing.
pub open spec fn color_text(color: RepoColor) -> Seq<char> {
    match color {
        RepoColor::Themed(hex) => hex@,
        RepoColor::ResetToDefault => Seq::empty(),
    }
}

/// The state of an edit session: which repository, and the text of each
/// field as last written.
pub struct RepoEditFieldMutator {
    /// The name the repository was selected by.
    pub selected_alias: String,
    pub current_raw_path: String,
    pub current_description: String,
    /// The tags joined with `, `.
    pub current_tags_csv: String,
    /// The custom title, or empty for "use alias".
    pub current_title: String,
    /// The `#RRGGBB` color, or empty for none.
    pub current_color_hex: String,
}

/// The menu: one row per field, then `Done`. Path, description and tags
/// are cut to 50 bytes; an empty tag list, title or color shows a
/// placeholder.
pub open spec fn menu_labels_of(session: RepoEditFieldMutator) -> Seq<Seq<char>> {
    seq![
        "Path: "@ + menu_cut(session.current_raw_path@),
        "Description: "@ + menu_cut(session.current_description@),
        if session.current_tags_csv@.len() == 0 {
            "Tags: (none)"@
        } else {
            "Tags: "@ + menu_cut(session.current_tags_csv@)
        },
        if session.current_title@.len() == 0 {
            "Title: (use alias)"@
        } else {
            "Title: "@ + session.current_title@
        },
        if session.current_color_hex@.len() == 0 {
            "Color: (none)"@
        } else {
            "Color: "@ + session.current_color_hex@
        },
        "Done"@,
    ]
}

impl RepoEditFieldMutator {
    /// The session shows the fields of `entry`.
    pub open spec fn mirrors(self, entry: RepoEntry) -> bool {
        &&& self.current_raw_path@ == entry.path@
        &&& self.current_description@ == entry.description@
        &&& self.current_tags_csv@ == join(string_views(entry.tags@), ", "@)
        &&& self.current_title@ == title_text(entry.title)
        &&& self.current_color_hex@ == color_text(entry.color)
    }

    /// A session on `entry`, selected by `selected_alias`.
    pub fn for_repo(selected_alias: String, entry: &RepoEntry) -> (session: Self)
        ensures
            session.selected_alias == selected_alias,
            session.mirrors(*entry),
    {
        RepoEditFieldMutator {
            selected_alias,
            current_raw_path: entry.path.clone(),
            current_description: entry.description.clone(),
            current_tags_csv: join_strings(&entry.tags, ", "),
            current_title: title_string(&entry.title),
            current_color_hex: color_string(&entry.color),
        }
    }

    /// The menu rows, in the order of [`EditField`].
    pub fn build_menu_labels(&self) -> (labels: Vec<String>)
        ensures
            string_views(labels@) == menu_labels_of(*self),
    {
        let path_label = labelled("Path: ", truncate_for_menu(self.current_raw_path.as_str()).as_str());
        let description_label = labelled(
            "Description: ",
            truncate_for_menu(self.current_description.as_str()).as_str(),
        );
        let tags_label = if self.current_tags_csv.as_str().is_empty() {
            "Tags: (none)".to_owned()
        } else {
            labelled("Tags: ", truncate_for_menu(self.current_tags_csv.as_str()).as_str())
        };
        let title_label = if self.current_title.as_str().is_empty() {
            "Title: (use alias)".to_owned()
        } else {
            labelled("Title: ", self.current_title.as_str())
        };
        let color_label = if self.current_color_hex.as_str().is_empty() {
            "Color: (none)".to_owned()
        } else {
            labelled("Color: ", self.current_color_hex.as_str())
        };
        let labels = vec![path_label, description_label, tags_label, title_label, color_label, "Done".to_owned()];
        assert(string_views(labels@) =~= menu_labels_of(*self));
        labels
    }

    /// Sets the path. An empty (after trimming) path is a
    /// `ValidationFailure` "must not be empty"; a path whose expansion
    /// does not exist is a `ValidationFailure` naming the expansion; a
    /// repository that no longer answers to the session's name is
    /// `RepoNotFound`. Nothing changes on failure.
    pub fn apply_path_edit(
        &mut self,
        loaded_config: &mut ReportalConfig,
        new_raw_path: &str,
        expanded_path_exists: bool,
        home: &Option<String>,
    ) -> (edited: Result<(), ReportalError>)
        requires
            old(loaded_config).wf(),
        ensures
            final(loaded_config).wf(),
            edited is Err ==> *final(loaded_config) == *old(loaded_config) && *final(self) == *old(self),
            trim(new_raw_path@).len() == 0 ==> (edited matches Err(ReportalError::ValidationFailure { field, reason })
                && field@ == "path"@ && reason@ == "must not be empty"@),
            trim(new_raw_path@).len() > 0 && !expanded_path_exists ==> (edited matches Err(
                ReportalError::ValidationFailure { field, reason },
            ) && field@ == "path"@ && reason@ == tilde_expansion(new_raw_path@, home_view(*home))
                + " does not exist"@),
            trim(new_raw_path@).len() > 0 && expanded_path_exists ==> match repo_lookup(
                old(loaded_config).repos@,
                old(self).selected_alias@,
            ) {
                None => edited matches Err(error) && is_repo_not_found(error, old(self).selected_alias@),
                Some(index) => edited is Ok && final(self).current_raw_path@ == new_raw_path@
                    && final(self).selected_alias == old(self).selected_alias
                    && final(self).current_description == old(self).current_description
                    && final(self).current_tags_csv == old(self).current_tags_csv
                    && final(self).current_title == old(self).current_title
                    && final(self).current_color_hex == old(self).current_color_hex
                    && final(loaded_config).repos@[index].1.path@ == new_raw_path@ && replaced_repo(
                    *old(loaded_config),
                    *final(loaded_config),
                    index,
                    final(loaded_config).repos@[index].1,
                ) && final(loaded_config).repos@[index].1 == with_edit(
                    old(loaded_config).repos@[index].1,
                    RepoFieldEdit::Path(final(loaded_config).repos@[index].1.path),
                ),
            },
    {
        let raw_chars = chars_of(new_raw_path);
        let cleaned = trimmed(raw_chars.as_slice());
        if cleaned.len() == 0 {
            return Err(
                ReportalError::ValidationFailure { field: "path".to_owned(), reason: "must not be empty".to_owned() },
            );
        }
        if !expanded_path_exists {
            let expanded = expand_tilde_with_home(new_raw_path, home);
            let mut reason: Vec<char> = Vec::new();
            extend_str(&mut reason, expanded.as_str());
            extend_str(&mut reason, " does not exist");
            return Err(
                ReportalError::ValidationFailure { field: "path".to_owned(), reason: string_of(reason.as_slice()) },
            );
        }
        let index = match loaded_config.repo_position(self.selected_alias.as_str()) {
            Some(index) => index,
            None => {
                return Err(ReportalError::RepoNotFound { alias: self.selected_alias.clone() });
            },
        };
        edit_repo_field(loaded_config, index, RepoFieldEdit::Path(new_raw_path.to_owned()));
        self.current_raw_path = loaded_config.repos[index].1.path.clone();
        Ok(())
    }

    /// Sets the description; `RepoNotFound` (and no change) when the
    /// repository no longer answers to the session's name.
    pub fn apply_description_edit(&mut self, loaded_config: &mut ReportalConfig, new_description: String) -> (edited:
        Result<(), ReportalError>)
        requires
            old(loaded_config).wf(),
        ensures
            final(loaded_config).wf(),
            match repo_lookup(old(loaded_config).repos@, old(self).selected_alias@) {
                None => edited matches Err(error) && is_repo_not_found(error, old(self).selected_alias@)
                    && *final(loaded_config) == *old(loaded_config) && *final(self) == *old(self),
                Some(index) => edited is Ok && replaced_repo(
                    *old(loaded_config),
                    *final(loaded_config),
                    index,
                    with_edit(old(loaded_config).repos@[index].1, RepoFieldEdit::Description(new_description)),
                ) && *final(self) == (RepoEditFieldMutator {
                    current_description: final(self).current_description,
                    ..*old(self)
                }) && final(self).current_description@ == new_description@,
            },
    {
        let index = match loaded_config.repo_position(self.selected_alias.as_str()) {
            Some(index) => index,
            None => {
                return Err(ReportalError::RepoNotFound { alias: self.selected_alias.clone() });
            },
        };
        let ghost given = new_description;
        edit_repo_field(loaded_config, index, RepoFieldEdit::Description(new_description));
        self.current_description = loaded_config.repos[index].1.description.clone();
        Ok(())
    }

    /// Replaces the tags with those parsed from comma-separated input (see
    /// [`parse_comma_separated_tags`]); `RepoNotFound` (and no change)
    /// when the repository no longer answers to the session's name.
    pub fn apply_tags_edit(&mut self, loaded_config: &mut ReportalConfig, tags_input: &str) -> (edited: Result<
        (),
        ReportalError,
    >)
        requires
            old(loaded_config).wf(),
        ensures
            final(loaded_config).wf(),
            match repo_lookup(old(loaded_config).repos@, old(self).selected_alias@) {
                None => edited matches Err(error) && is_repo_not_found(error, old(self).selected_alias@)
                    && *final(loaded_config) == *old(loaded_config) && *final(self) == *old(self),
                Some(index) => edited is Ok && replaced_repo(
                    *old(loaded_config),
                    *final(loaded_config),
                    index,
                    final(loaded_config).repos@[index].1,
                ) && final(loaded_config).repos@[index].1 == with_edit(
                    old(loaded_config).repos@[index].1,
                    RepoFieldEdit::Tags(final(loaded_config).repos@[index].1.tags),
                ) && string_views(final(loaded_config).repos@[index].1.tags@) == kept_tags(
                    split_on(tags_input@, ','),
                ) && *final(self) == (RepoEditFieldMutator {
                    current_tags_csv: final(self).current_tags_csv,
                    ..*old(self)
                }) && final(self).current_tags_csv@ == join(kept_tags(split_on(tags_input@, ',')), ", "@),
            },
    {
        let index = match loaded_config.repo_position(self.selected_alias.as_str()) {
            Some(index) => index,
            None => {
                return Err(ReportalError::RepoNotFound { alias: self.selected_alias.clone() });
            },
        };
        let new_tags = parse_comma_separated_tags(tags_input);
        edit_repo_field(loaded_config, index, RepoFieldEdit::Tags(new_tags));
        self.current_tags_csv = join_strings(&loaded_config.repos[index].1.tags, ", ");
        Ok(())
    }

    /// Sets the tab title: empty input means "use the alias", anything
    /// else is a custom title; `RepoNotFound` (and no change) when the
    /// repository no longer answers to the session's name.
    pub fn apply_title_edit(&mut self, loaded_config: &mut ReportalConfig, new_title: String) -> (edited: Result<
        (),
        ReportalError,
    >)
        requires
            old(loaded_config).wf(),
        ensures
            final(loaded_config).wf(),
            match repo_lookup(old(loaded_config).repos@, old(self).selected_alias@) {
                None => edited matches Err(error) && is_repo_not_found(error, old(self).selected_alias@)
                    && *final(loaded_config) == *old(loaded_config) && *final(self) == *old(self),
                Some(index) => edited is Ok && replaced_repo(
                    *old(loaded_config),
                    *final(loaded_config),
                    index,
                    with_edit(
                        old(loaded_config).repos@[index].1,
                        RepoFieldEdit::Title(
                            if new_title@.len() == 0 {
                                TabTitle::UseAlias
                            } else {
                                TabTitle::Custom(new_title)
                            },
                        ),
                    ),
                ) && *final(self) == (RepoEditFieldMutator { current_title: final(self).current_title, ..*old(self) })
                    && final(self).current_title@ == new_title@,
            },
    {
        let index = match loaded_config.repo_position(self.selected_alias.as_str()) {
            Some(index) => index,
            None => {
                return Err(ReportalError::RepoNotFound { alias: self.selected_alias.clone() });
            },
        };
        let resolved_title = if new_title.as_str().is_empty() {
            TabTitle::UseAlias
        } else {
            TabTitle::Custom(new_title)
        };
        edit_repo_field(loaded_config, index, RepoFieldEdit::Title(resolved_title));
        self.current_title = title_string(&loaded_config.repos[index].1.title);
        Ok(())
    }

    /// Sets the color from a color-edit answer: a provided or unchanged
    /// color is set, a cleared one resets to the terminal default;
    /// `RepoNotFound` (and no change) when the repository no longer
    /// answers to the session's name.
    pub fn apply_color_edit(&mut self, loaded_config: &mut ReportalConfig, color_edit_result: ColorEditResult) -> (edited:
        Result<(), ReportalError>)
        requires
            old(loaded_config).wf(),
        ensures
            final(loaded_config).wf(),
            match repo_lookup(old(loaded_config).repos@, old(self).selected_alias@) {
                None => edited matches Err(error) && is_repo_not_found(error, old(self).selected_alias@)
                    && *final(loaded_config) == *old(loaded_config) && *final(self) == *old(self),
                Some(index) => edited is Ok && replaced_repo(
                    *old(loaded_config),
                    *final(loaded_config),
                    index,
                    with_edit(
                        old(loaded_config).repos@[index].1,
                        RepoFieldEdit::Color(
                            match color_edit_result {
                                ColorEditResult::Provided(hex) => RepoColor::Themed(hex),
                                ColorEditResult::Unchanged(hex) => RepoColor::Themed(hex),
                                ColorEditResult::Cleared => RepoColor::ResetToDefault,
                            },
                        ),
                    ),
                ) && *final(self) == (RepoEditFieldMutator {
                    current_color_hex: final(self).current_color_hex,
                    ..*old(self)
                }) && final(self).current_color_hex@ == match color_edit_result {
                    ColorEditResult::Provided(hex) => hex@,
                    ColorEditResult::Unchanged(hex) => hex@,
                    ColorEditResult::Cleared => Seq::empty(),
                },
            },
    {
        let index = match loaded_config.repo_position(self.selected_alias.as_str()) {
            Some(index) => index,
            None => {
                return Err(ReportalError::RepoNotFound { alias: self.selected_alias.clone() });
            },
        };
        let resolved_color = match color_edit_result {
            ColorEditResult::Provided(hex_color) => RepoColor::Themed(hex_color),
            ColorEditResult::Unchanged(hex_color) => RepoColor::Themed(hex_color),
            ColorEditResult::Cleared => RepoColor::ResetToDefault,
        };
        edit_repo_field(loaded_config, index, RepoFieldEdit::Color(resolved_color));
        self.current_color_hex = color_string(&loaded_config.repos[index].1.color);
        Ok(())
    }

    /// The layouts of every workspace that lists the session's repository,
    /// in name order, to be rewritten after its path changed; the first
    /// workspace that cannot be laid out stops with its error.
    pub fn regenerate_affected_workspaces(&self, loaded_config: &ReportalConfig, home: &Option<String>) -> (plans:
        Result<Vec<WorkspaceLayoutPlan>, ReportalError>)
        requires
            loaded_config.wf(),
        ensures
            ({
                let names = crate::config::containing_workspaces(loaded_config.workspaces@, self.selected_alias@, 0);
                match plans {
                    Ok(list) => list@.len() == names.len() && forall|i: int|
                        0 <= i < list@.len() ==> regeneration_result(
                            *loaded_config,
                            names[i],
                            *home,
                            Ok(#[trigger] list@[i]),
                        ),
                    Err(error) => exists|i: int|
                        #![trigger names[i]]
                        0 <= i < names.len() && regeneration_result(*loaded_config, names[i], *home, Err(error))
                            && forall|j: int| 0 <= j < i ==> regenerates(*loaded_config, #[trigger] names[j], *home),
                }
            }),
    {
        let affected_workspaces = loaded_config.workspaces_containing_repo(self.selected_alias.as_str());
        let ghost names = crate::config::containing_workspaces(loaded_config.workspaces@, self.selected_alias@, 0);
        let regenerator = WorkspaceRegenerator::for_config(loaded_config);
        let mut plans: Vec<WorkspaceLayoutPlan> = Vec::new();
        let mut index: usize = 0;
        while index < affected_workspaces.len()
            invariant
                loaded_config.wf(),
                regenerator.config_registry == loaded_config,
                string_views(affected_workspaces@) == names,
                names == crate::config::containing_workspaces(loaded_config.workspaces@, self.selected_alias@, 0),
                index <= affected_workspaces@.len(),
                plans@.len() == index,
                forall|i: int|
                    0 <= i < index ==> regeneration_result(*loaded_config, names[i], *home, Ok(#[trigger] plans@[i])),
            decreases affected_workspaces@.len() - index,
        {
            assert(string_views(affected_workspaces@)[index as int] == affected_workspaces@[index as int]@);
            match regenerator.regenerate_workspace_file(affected_workspaces[index].as_str(), home) {
                Ok(plan) => {
                    plans.push(plan);
                },
                Err(error) => {
                    assert forall|j: int| 0 <= j < index implies regenerates(*loaded_config, #[trigger] names[j], *home) by {
                        assert(regeneration_result(*loaded_config, names[j], *home, Ok(plans@[j])));
                    }
                    assert(regeneration_result(*loaded_config, names[index as int], *home, Err(error)));
                    return Err(error);
                },
            }
            index = index + 1;
        }
        Ok(plans)
    }
}

/// The workspace registered under `name` can be laid out.
pub open spec fn regenerates(config: ReportalConfig, name: Seq<char>, home: Option<String>) -> bool {
    exists|plan: WorkspaceLayoutPlan| regeneration_result(config, name, home, Ok(plan))
}

fn labelled(label: &str, value: &str) -> (text: String)
    ensures
        text@ == label@ + value@,
{
    let mut characters: Vec<char> = Vec::new();
    extend_str(&mut characters, label);
    extend_str(&mut characters, value);
    string_of(characters.as_slice())
}

fn title_string(title: &TabTitle) -> (text: String)
    ensures
        text@ == title_text(*title),
{
    match title {
        TabTitle::Custom(custom_title) => custom_title.clone(),
        TabTitle::UseAlias => String::new(),
    }
}

fn color_string(color: &RepoColor) -> (text: String)
    ensures
        text@ == color_text(*color),
{
    match color {
        RepoColor::Themed(hex_color) => hex_color.raw_value().to_owned(),
        RepoColor::ResetToDefault => String::new(),
    }
}

} // verus!
