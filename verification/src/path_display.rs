//! How a command prints the path it selected.

use vstd::prelude::*;
use crate::config::{PathDisplayFormat, PathVisibility, ReportalConfig};
use crate::text::{chars_of, string_of};

verus! {

/// A path written in a display format: as it is, or with every `\`
/// written as `/`.
pub open spec fn formatted_path(format: PathDisplayFormat, path: Seq<char>) -> Seq<char> {
    match format {
        PathDisplayFormat::Native => path,
        PathDisplayFormat::ForwardSlashes => path.map_values(|c: char| if c == '\\' { '/' } else { c }),
    }
}

/// Writes a path in the registry's display format.
pub fn format_path(format: PathDisplayFormat, path: &str) -> (shown: String)
    ensures
        shown@ == formatted_path(format, path@),
{
    match format {
        PathDisplayFormat::Native => path.to_owned(),
        PathDisplayFormat::ForwardSlashes => {
            let characters = chars_of(path);
            let mut written: Vec<char> = Vec::new();
            let mut index: usize = 0;
            while index < characters.len()
                invariant
                    characters@ == path@,
                    index <= characters@.len(),
                    written@ == characters@.take(index as int).map_values(
                        |c: char| if c == '\\' { '/' } else { c },
                    ),
                decreases characters@.len() - index,
            {
                let c = characters[index];
                written.push(if c == '\\' { '/' } else { c });
                assert(characters@.take(index + 1) =~= characters@.take(index as int).push(c));
                assert(written@ =~= characters@.take(index + 1).map_values(
                    |c: char| if c == '\\' { '/' } else { c },
                ));
                index = index + 1;
            }
            assert(characters@.take(characters@.len() as int) =~= characters@);
            string_of(written.as_slice())
        },
    }
}

/// `echoed` is what is echoed on stderr for the selected `path`: the path
/// in the registry's display format when the registry shows selected
/// paths, else nothing.
pub open spec fn echoes(config: ReportalConfig, path: Seq<char>, echoed: Option<String>) -> bool {
    match config.path_on_select {
        PathVisibility::Show => echoed matches Some(shown) && shown@ == formatted_path(config.path_display_format, path),
        PathVisibility::Hide => echoed is None,
    }
}

/// The registry and the path that was selected.
pub struct SelectedPathDisplayParams<'a> {
    pub loaded_config: &'a ReportalConfig,
    pub resolved_path: &'a str,
}

/// The path to echo on stderr: the selected one, in the registry's display
/// format, when the registry says to show selected paths, else none.
pub fn print_selected_path_if_visible(display_params: &SelectedPathDisplayParams<'_>) -> (shown: Option<
    String,
>)
    ensures
        echoes(*display_params.loaded_config, display_params.resolved_path@, shown),
{
    match display_params.loaded_config.path_on_select {
        PathVisibility::Show => Some(
            format_path(display_params.loaded_config.path_display_format, display_params.resolved_path),
        ),
        PathVisibility::Hide => None,
    }
}

} // verus!
