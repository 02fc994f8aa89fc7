//! `rep list`: the grouped listing under the active filters.

use vstd::prelude::*;
use crate::config::{ReportalConfig, TagFilter, WorkspaceFilter};
use crate::error::{ReportalError, is_repo_not_found, is_workspace_not_found};
use crate::repo_listing_renderer::{ListingPart, RepoListingRenderer, listing_parts, part_views};
use crate::repo_tree_grouping::{RepoTreeGrouping, RepoTreeGroupingParams, workspace_target};

verus! {

/// The listing for the filters: the grouping's errors, or its rendering.
pub fn run_list(
    loaded_config: &ReportalConfig,
    tag_filter: &TagFilter,
    workspace_filter: &WorkspaceFilter,
    home: &Option<String>,
) -> (listing: Result<Vec<ListingPart>, ReportalError>)
    requires
        loaded_config.wf(),
    ensures
        ({
            let params = RepoTreeGroupingParams { loaded_config, tag_filter, workspace_filter };
            &&& params.names_missing_workspace() ==> (listing matches Err(error) && is_workspace_not_found(
                error,
                workspace_target(*workspace_filter),
            ))
            &&& !params.names_missing_workspace() ==> match params.unresolved_member() {
                Some(alias) => listing matches Err(error) && is_repo_not_found(error, alias),
                None => listing matches Ok(parts) && part_views(parts@) == listing_parts(
                    params.expected_view(),
                    *tag_filter,
                    *workspace_filter,
                    *home,
                ),
            }
        }),
{
    let params = RepoTreeGroupingParams { loaded_config, tag_filter, workspace_filter };
    let tree_grouping = match RepoTreeGrouping::build(&params) {
        Ok(tree) => tree,
        Err(error) => {
            return Err(error);
        },
    };
    let listing_renderer = RepoListingRenderer::for_tree(&tree_grouping);
    Ok(listing_renderer.render(tag_filter, workspace_filter, home))
}

} // verus!
