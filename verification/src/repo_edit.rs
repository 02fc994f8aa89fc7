//! `rep edit`: choosing the repository to edit and reading the field
//! menu's answers.

use vstd::prelude::*;
use crate::config::{ReportalConfig, TagFilter};
use crate::error::ReportalError;
use crate::repo_edit_mutator::RepoEditFieldMutator;
use crate::repo_selection::{repo_choice, select_repo, RepoChoice, SelectedRepoParams};

verus! {

/// What the edit command was asked.
pub struct EditCommandParams<'a> {
    /// Which repositories the menu shows.
    pub tag_filter: TagFilter,
    /// A repository to edit directly; empty for the menu.
    pub direct_alias: &'a str,
}

/// A field the edit menu offers, in menu order.
#[derive(PartialEq, Eq, Structural, Clone, Copy)]
pub enum EditField {
    Path,
    Description,
    Tags,
    Title,
    Color,
}

/// The field a menu answer picks: rows 0 to 4 are the fields; `Done`,
/// any later row, or a dismissed menu ends the session.
pub fn edit_field_for(chosen_index: Option<usize>) -> (field: Option<EditField>)
    ensures
        field == match chosen_index {
            Some(0) => Some(EditField::Path),
            Some(1) => Some(EditField::Description),
            Some(2) => Some(EditField::Tags),
            Some(3) => Some(EditField::Title),
            Some(4) => Some(EditField::Color),
            _ => None::<EditField>,
        },
{
    match chosen_index {
        Some(0) => Some(EditField::Path),
        Some(1) => Some(EditField::Description),
        Some(2) => Some(EditField::Tags),
        Some(3) => Some(EditField::Title),
        Some(4) => Some(EditField::Color),
        _ => None,
    }
}

/// The edit session for the chosen repository (see [`select_repo`]),
/// showing its current fields.
pub fn run_edit(command_params: &EditCommandParams<'_>, loaded_config: &ReportalConfig, chosen_index: Option<usize>) -> (session:
    Result<RepoEditFieldMutator, ReportalError>)
    requires
        loaded_config.wf(),
    ensures
        match repo_choice(loaded_config.repos@, command_params.direct_alias@, command_params.tag_filter, chosen_index) {
            RepoChoice::Found(index, alias) => session matches Ok(editing) && editing.selected_alias@ == alias
                && editing.mirrors(loaded_config.repos@[index].1),
            RepoChoice::NotFound => session matches Err(ReportalError::RepoNotFound { alias }) && alias@
                == command_params.direct_alias@,
            RepoChoice::NoneMatch => session matches Err(ReportalError::NoReposMatchFilter),
            RepoChoice::Cancelled => session matches Err(ReportalError::SelectionCancelled),
        },
{
    let selection_params = SelectedRepoParams {
        loaded_config,
        direct_alias: command_params.direct_alias,
        tag_filter: &command_params.tag_filter,
        prompt_label: "Edit repo",
    };
    let selected = match select_repo(&selection_params, chosen_index) {
        Ok(selected) => selected,
        Err(error) => {
            return Err(error);
        },
    };
    Ok(RepoEditFieldMutator::for_repo(selected.repo_alias().to_owned(), selected.repo_config()))
}

} // verus!
