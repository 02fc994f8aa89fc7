//! Top-level shell functions for configuration entries that opt in with
//! `shell_alias = true`: one function per command key, and per repository
//! or workspace key and declared alias, so `vna` works in place of `rj vna`.

use vstd::prelude::*;
use crate::cli_args::InitializeShell;
use crate::config::{
    CommandEntry, RepoEntry, ReportalConfig, ShellAliasExport, WorkspaceEntry, list_contains,
    lists,
};
use crate::text::{chars_of, extend_str, string_of, string_views};

verus! {

// ---------------------------------------------------------------------
// Names
// ---------------------------------------------------------------------

/// The functions that the base integration script defines itself.
pub open spec fn builtin_function_names() -> Seq<Seq<char>> {
    seq![
        seq!['r', 'j'],
        seq!['r', 'o'],
        seq!['r', 'j', 'w'],
        seq!['r', 'o', 'w'],
        seq!['r', 'w'],
        seq!['r', 'r'],
    ]
}

/// An ASCII letter.
pub open spec fn is_ascii_letter(c: char) -> bool {
    ('a' <= c <= 'z') || ('A' <= c <= 'Z')
}

/// A character allowed in a function name.
pub open spec fn is_name_char(c: char) -> bool {
    is_ascii_letter(c) || ('0' <= c <= '9') || c == '_' || c == '-'
}

/// A name every supported shell accepts as a bare function name, and
/// that does not shadow a built-in function.
pub open spec fn is_emittable(name: Seq<char>) -> bool {
    &&& name.len() > 0
    &&& !builtin_function_names().contains(name)
    &&& !('0' <= name[0] <= '9')
    &&& forall|i: int| 0 <= i < name.len() ==> is_name_char(#[trigger] name[i])
}

fn is_builtin_function_name(candidate: &str) -> (builtin: bool)
    ensures
        builtin == builtin_function_names().contains(candidate@),
{
    let builtin = crate::config::same_text(candidate, "rj") || crate::config::same_text(candidate, "ro")
        || crate::config::same_text(candidate, "rjw") || crate::config::same_text(candidate, "row")
        || crate::config::same_text(candidate, "rw") || crate::config::same_text(candidate, "rr");
    proof {
        reveal_strlit("rj");
        reveal_strlit("ro");
        reveal_strlit("rjw");
        reveal_strlit("row");
        reveal_strlit("rw");
        reveal_strlit("rr");
        let names = builtin_function_names();
        assert("rj"@ =~= names[0]);
        assert("ro"@ =~= names[1]);
        assert("rjw"@ =~= names[2]);
        assert("row"@ =~= names[3]);
        assert("rw"@ =~= names[4]);
        assert("rr"@ =~= names[5]);
        if names.contains(candidate@) {
            let k = choose|k: int| 0 <= k < names.len() && names[k] == candidate@;
            assert(k == 0 || k == 1 || k == 2 || k == 3 || k == 4 || k == 5);
        }
    }
    builtin
}

/// Whether a name can be emitted as a shell function: ASCII letters,
/// digits, `_` and `-`, not starting with a digit, not empty, and
/// not one of the built-in functions `rj`, `ro`, `rjw`, `row`, `rw`, `rr`.
pub fn is_emittable_function_name(candidate_name: &str) -> (emittable: bool)
    ensures
        emittable == is_emittable(candidate_name@),
{
    let characters = chars_of(candidate_name);
    if characters.len() == 0 {
        return false;
    }
    if is_builtin_function_name(candidate_name) {
        return false;
    }
    let first_character = characters[0];
    if '0' <= first_character && first_character <= '9' {
        return false;
    }
    let mut index: usize = 0;
    while index < characters.len()
        invariant
            characters@ == candidate_name@,
            0 <= index <= characters@.len(),
            forall|i: int| 0 <= i < index ==> is_name_char(#[trigger] characters@[i]),
        decreases characters@.len() - index,
    {
        let c = characters[index];
        let allowed = ('a' <= c && c <= 'z') || ('A' <= c && c <= 'Z') || ('0' <= c && c <= '9')
            || c == '_' || c == '-';
        if !allowed {
            assert(!is_name_char(characters@[index as int]));
            return false;
        }
        index = index + 1;
    }
    true
}

// ---------------------------------------------------------------------
// Entries
// ---------------------------------------------------------------------

/// Which `rep` subcommand an emitted function runs.
#[derive(PartialEq, Eq, Structural, Clone, Copy)]
pub enum ExportedDispatchKind {
    /// `rep jump <name>`, then change directory and apply the color.
    RepositoryJump,
    /// `rep workspace jump <name>`, then change directory.
    WorkspaceJump,
    /// `rep run --cmd <name>` with the caller's arguments.
    ConfiguredCommandRun,
}

/// One emitted function: its name, the argument handed to `rep`, and
/// which subcommand it runs.
pub struct ExportedDispatchEntry {
    pub function_name: String,
    pub dispatch_argument: String,
    pub dispatch_kind: ExportedDispatchKind,
}

/// An emitted function as plain values.
pub type EntryView = (Seq<char>, Seq<char>, ExportedDispatchKind);

/// The entries as plain values.
pub open spec fn entry_views(entries: Seq<ExportedDispatchEntry>) -> Seq<EntryView> {
    entries.map_values(
        |entry: ExportedDispatchEntry|
            (entry.function_name@, entry.dispatch_argument@, entry.dispatch_kind),
    )
}

/// One entry per emittable name, in order, each dispatching with its own
/// name.
pub open spec fn name_entries(names: Seq<Seq<char>>, kind: ExportedDispatchKind) -> Seq<EntryView>
    decreases names.len(),
{
    if names.len() == 0 {
        Seq::empty()
    } else {
        let rest = name_entries(names.drop_last(), kind);
        if is_emittable(names.last()) {
            rest.push((names.last(), names.last(), kind))
        } else {
            rest
        }
    }
}

/// The entries of the opted-in commands, from `from` on.
pub open spec fn command_entries(commands: Seq<(String, CommandEntry)>, from: int) -> Seq<EntryView>
    decreases commands.len() - from,
{
    if from < 0 || from >= commands.len() {
        Seq::empty()
    } else {
        name_entries(
            if commands[from].1.shell_alias == ShellAliasExport::Enabled {
                seq![commands[from].0@]
            } else {
                Seq::empty()
            },
            ExportedDispatchKind::ConfiguredCommandRun,
        ) + command_entries(commands, from + 1)
    }
}

/// The entries of the opted-in repositories (key, then declared aliases),
/// from `from` on.
pub open spec fn repository_entries(repos: Seq<(String, RepoEntry)>, from: int) -> Seq<EntryView>
    decreases repos.len() - from,
{
    if from < 0 || from >= repos.len() {
        Seq::empty()
    } else {
        name_entries(
            if repos[from].1.shell_alias == ShellAliasExport::Enabled {
                seq![repos[from].0@] + string_views(repos[from].1.aliases@)
            } else {
                Seq::empty()
            },
            ExportedDispatchKind::RepositoryJump,
        ) + repository_entries(repos, from + 1)
    }
}

/// The entries of the opted-in workspaces (name, then declared aliases),
/// from `from` on.
pub open spec fn workspace_entries(workspaces: Seq<(String, WorkspaceEntry)>, from: int) -> Seq<
    EntryView,
>
    decreases workspaces.len() - from,
{
    if from < 0 || from >= workspaces.len() {
        Seq::empty()
    } else {
        name_entries(
            if workspaces[from].1.shell_alias == ShellAliasExport::Enabled {
                seq![workspaces[from].0@] + string_views(workspaces[from].1.aliases@)
            } else {
                Seq::empty()
            },
            ExportedDispatchKind::WorkspaceJump,
        ) + workspace_entries(workspaces, from + 1)
    }
}

/// Every candidate entry: commands, then repositories, then workspaces.
pub open spec fn collected_entries(config: ReportalConfig) -> Seq<EntryView> {
    command_entries(config.commands@, 0) + repository_entries(config.repos@, 0) + workspace_entries(
        config.workspaces@,
        0,
    )
}

/// An earlier entry than `index` has the same function name.
pub open spec fn name_seen_before(entries: Seq<EntryView>, index: int) -> bool {
    exists|j: int| 0 <= j < index && entries[j].0 == entries[index].0
}

/// The entries whose function name no earlier entry has: the first
/// occurrence of each name wins.
pub open spec fn first_occurrences(entries: Seq<EntryView>) -> Seq<EntryView>
    decreases entries.len(),
{
    if entries.len() == 0 {
        Seq::empty()
    } else {
        let kept = first_occurrences(entries.drop_last());
        if name_seen_before(entries, entries.len() - 1) {
            kept
        } else {
            kept.push(entries.last())
        }
    }
}

// ---------------------------------------------------------------------
// Text
// ---------------------------------------------------------------------

/// The comment line that opens the emitted block.
pub open spec fn snippet_header() -> Seq<char> {
    "# RePortal user-config shell aliases — generated from `shell_alias = true` entries.\n"@
}

/// The bash/zsh lines for one entry: `unalias` on a line of its own, then
/// the function.
pub open spec fn bash_entry_text(entry: EntryView) -> Seq<char> {
    let (name, argument, kind) = entry;
    "unalias "@ + name + " 2>/dev/null\n"@ + match kind {
        ExportedDispatchKind::RepositoryJump => "function "@ + name + "() { cd \"$(rep jump "@
            + argument + ")\"; rep color; }\n"@,
        ExportedDispatchKind::WorkspaceJump => "function "@ + name
            + "() { cd \"$(rep workspace jump "@ + argument + ")\"; rep color; }\n"@,
        ExportedDispatchKind::ConfiguredCommandRun => "function "@ + name + "() { rep run --cmd "@
            + argument + " \"$@\"; }\n"@,
    }
}

/// The PowerShell line for one entry: drop a shadowing alias, then define
/// a global function.
pub open spec fn powershell_entry_text(entry: EntryView) -> Seq<char> {
    let (name, argument, kind) = entry;
    "Remove-Item Alias:"@ + name + " -ErrorAction SilentlyContinue; function global:"@ + name
        + match kind {
        ExportedDispatchKind::RepositoryJump => " { Set-Location (rep jump "@ + argument
            + "); rep color }\n"@,
        ExportedDispatchKind::WorkspaceJump => " { Set-Location (rep workspace jump "@ + argument
            + "); rep color }\n"@,
        ExportedDispatchKind::ConfiguredCommandRun => " { rep run --cmd "@ + argument
            + " @args }\n"@,
    }
}

/// The header followed by each entry's bash/zsh lines.
pub open spec fn bash_block(entries: Seq<EntryView>) -> Seq<char>
    decreases entries.len(),
{
    if entries.len() == 0 {
        snippet_header()
    } else {
        bash_block(entries.drop_last()) + bash_entry_text(entries.last())
    }
}

/// The header followed by each entry's PowerShell line.
pub open spec fn powershell_block(entries: Seq<EntryView>) -> Seq<char>
    decreases entries.len(),
{
    if entries.len() == 0 {
        snippet_header()
    } else {
        powershell_block(entries.drop_last()) + powershell_entry_text(entries.last())
    }
}

/// The snippet for a shell: empty when nothing opts in.
pub open spec fn expected_snippet(shell: InitializeShell, config: ReportalConfig) -> Seq<char> {
    let entries = first_occurrences(collected_entries(config));
    if entries.len() == 0 {
        Seq::empty()
    } else {
        match shell {
            InitializeShell::Zsh | InitializeShell::Bash => bash_block(entries),
            InitializeShell::Powershell => powershell_block(entries),
        }
    }
}

// ---------------------------------------------------------------------
// Collection
// ---------------------------------------------------------------------

/// The shell and the configuration a snippet is built from.
pub struct ShellAliasEmissionParameters<'configuration> {
    pub target_shell: InitializeShell,
    pub configuration: &'configuration ReportalConfig,
}

fn push_one_dispatch_entry_if_emittable(
    collector: &mut Vec<ExportedDispatchEntry>,
    names: Ghost<Seq<Seq<char>>>,
    candidate_function_name: &str,
    dispatch_kind: ExportedDispatchKind,
)
    requires
        entry_views(old(collector)@) == name_entries(names@, dispatch_kind),
    ensures
        entry_views(final(collector)@) == name_entries(names@.push(candidate_function_name@), dispatch_kind),
{
    let ghost extended = names@.push(candidate_function_name@);
    assert(extended.drop_last() =~= names@);
    if !is_emittable_function_name(candidate_function_name) {
        return;
    }
    let ghost before = collector@;
    collector.push(
        ExportedDispatchEntry {
            function_name: candidate_function_name.to_owned(),
            dispatch_argument: candidate_function_name.to_owned(),
            dispatch_kind,
        },
    );
    assert(entry_views(collector@) =~= entry_views(before).push(
        (candidate_function_name@, candidate_function_name@, dispatch_kind),
    ));
}

/// Appends the entries for one name and its declared aliases.
fn append_named_entries(
    collector: &mut Vec<ExportedDispatchEntry>,
    canonical_name: &str,
    aliases: &Vec<String>,
    dispatch_kind: ExportedDispatchKind,
)
    ensures
        entry_views(final(collector)@) == entry_views(old(collector)@) + name_entries(
            seq![canonical_name@] + string_views(aliases@),
            dispatch_kind,
        ),
{
    let mut own: Vec<ExportedDispatchEntry> = Vec::new();
    assert(name_entries(Seq::<Seq<char>>::empty(), dispatch_kind) =~= Seq::<EntryView>::empty());
    assert(entry_views(own@) =~= Seq::<EntryView>::empty());
    push_one_dispatch_entry_if_emittable(&mut own, Ghost(Seq::empty()), canonical_name, dispatch_kind);
    assert(Seq::<Seq<char>>::empty().push(canonical_name@) =~= seq![canonical_name@]);
    let mut index: usize = 0;
    while index < aliases.len()
        invariant
            index <= aliases@.len(),
            entry_views(own@) == name_entries(
                seq![canonical_name@] + string_views(aliases@.take(index as int)),
                dispatch_kind,
            ),
        decreases aliases@.len() - index,
    {
        let ghost names = seq![canonical_name@] + string_views(aliases@.take(index as int));
        push_one_dispatch_entry_if_emittable(&mut own, Ghost(names), aliases[index].as_str(), dispatch_kind);
        assert(names.push(aliases@[index as int]@) =~= seq![canonical_name@] + string_views(
            aliases@.take(index + 1),
        ));
        index = index + 1;
    }
    assert(aliases@.take(aliases@.len() as int) =~= aliases@);
    let ghost before = collector@;
    let ghost own_views = entry_views(own@);
    collector.append(&mut own);
    assert(entry_views(collector@) =~= entry_views(before) + own_views);
}

fn append_command_dispatch_entry(
    collector: &mut Vec<ExportedDispatchEntry>,
    command_key: &str,
    command_entry: &CommandEntry,
)
    ensures
        entry_views(final(collector)@) == entry_views(old(collector)@) + name_entries(
            if command_entry.shell_alias == ShellAliasExport::Enabled {
                seq![command_key@]
            } else {
                Seq::empty()
            },
            ExportedDispatchKind::ConfiguredCommandRun,
        ),
{
    let ghost before = collector@;
    if command_entry.shell_alias == ShellAliasExport::Enabled {
        if is_emittable_function_name(command_key) {
            collector.push(
                ExportedDispatchEntry {
                    function_name: command_key.to_owned(),
                    dispatch_argument: command_key.to_owned(),
                    dispatch_kind: ExportedDispatchKind::ConfiguredCommandRun,
                },
            );
        }
        assert(seq![command_key@].drop_last() =~= Seq::<Seq<char>>::empty());
        assert(seq![command_key@].last() == command_key@);
        assert(name_entries(Seq::<Seq<char>>::empty(), ExportedDispatchKind::ConfiguredCommandRun)
            =~= Seq::<EntryView>::empty());
        assert(entry_views(collector@) =~= entry_views(before) + name_entries(
            seq![command_key@],
            ExportedDispatchKind::ConfiguredCommandRun,
        ));
    } else {
        assert(entry_views(collector@) =~= entry_views(before) + name_entries(
            Seq::empty(),
            ExportedDispatchKind::ConfiguredCommandRun,
        ));
    }
}

fn append_repository_dispatch_entries(
    collector: &mut Vec<ExportedDispatchEntry>,
    repository_canonical_key: &str,
    repository_entry: &RepoEntry,
)
    ensures
        entry_views(final(collector)@) == entry_views(old(collector)@) + name_entries(
            if repository_entry.shell_alias == ShellAliasExport::Enabled {
                seq![repository_canonical_key@] + string_views(repository_entry.aliases@)
            } else {
                Seq::empty()
            },
            ExportedDispatchKind::RepositoryJump,
        ),
{
    if repository_entry.shell_alias == ShellAliasExport::Enabled {
        append_named_entries(
            collector,
            repository_canonical_key,
            &repository_entry.aliases,
            ExportedDispatchKind::RepositoryJump,
        );
    } else {
        assert(entry_views(collector@) =~= entry_views(collector@) + name_entries(
            Seq::empty(),
            ExportedDispatchKind::RepositoryJump,
        ));
    }
}

fn append_workspace_dispatch_entries(
    collector: &mut Vec<ExportedDispatchEntry>,
    workspace_canonical_name: &str,
    workspace_entry: &WorkspaceEntry,
)
    ensures
        entry_views(final(collector)@) == entry_views(old(collector)@) + name_entries(
            if workspace_entry.shell_alias == ShellAliasExport::Enabled {
                seq![workspace_canonical_name@] + string_views(workspace_entry.aliases@)
            } else {
                Seq::empty()
            },
            ExportedDispatchKind::WorkspaceJump,
        ),
{
    if workspace_entry.shell_alias == ShellAliasExport::Enabled {
        append_named_entries(
            collector,
            workspace_canonical_name,
            &workspace_entry.aliases,
            ExportedDispatchKind::WorkspaceJump,
        );
    } else {
        assert(entry_views(collector@) =~= entry_views(collector@) + name_entries(
            Seq::empty(),
            ExportedDispatchKind::WorkspaceJump,
        ));
    }
}

/// Keeps the first entry of each function name, in order.
fn deduplicate_by_function_name(raw_entries: &Vec<ExportedDispatchEntry>) -> (deduplicated: Vec<
    ExportedDispatchEntry,
>)
    ensures
        entry_views(deduplicated@) == first_occurrences(entry_views(raw_entries@)),
{
    let ghost raw = entry_views(raw_entries@);
    let mut already_emitted_names: Vec<String> = Vec::new();
    let mut deduplicated: Vec<ExportedDispatchEntry> = Vec::new();
    let mut index: usize = 0;
    while index < raw_entries.len()
        invariant
            raw == entry_views(raw_entries@),
            index <= raw.len(),
            entry_views(deduplicated@) == first_occurrences(raw.take(index as int)),
            forall|name: Seq<char>|
                lists(already_emitted_names@, name) <==> exists|j: int|
                    0 <= j < index && #[trigger] raw[j].0 == name,
        decreases raw.len() - index,
    {
        let raw_entry = &raw_entries[index];
        let ghost prefix = raw.take(index + 1);
        assert(prefix.drop_last() =~= raw.take(index as int));
        assert(prefix.last() == raw[index as int]);
        assert(name_seen_before(prefix, index as int) <==> exists|j: int|
            0 <= j < index && #[trigger] raw[j].0 == raw[index as int].0) by {
            if name_seen_before(prefix, index as int) {
                let j = choose|j: int| 0 <= j < index && prefix[j].0 == prefix[index as int].0;
                assert(raw[j].0 == raw[index as int].0);
            }
            if exists|j: int| 0 <= j < index && #[trigger] raw[j].0 == raw[index as int].0 {
                let j = choose|j: int| 0 <= j < index && #[trigger] raw[j].0 == raw[index as int].0;
                assert(prefix[j].0 == prefix[index as int].0);
            }
        }
        if !list_contains(&already_emitted_names, raw_entry.function_name.as_str()) {
            let ghost names_before = already_emitted_names@;
            already_emitted_names.push(raw_entry.function_name.clone());
            proof {
                assert forall|name: Seq<char>|
                    lists(already_emitted_names@, name) <==> exists|j: int|
                        0 <= j < index + 1 && #[trigger] raw[j].0 == name by {
                    if lists(already_emitted_names@, name) {
                        let k = choose|k: int| 0 <= k < already_emitted_names@.len() && already_emitted_names@[k]@ == name;
                        if k < names_before.len() {
                            assert(names_before[k]@ == name);
                            assert(lists(names_before, name));
                        } else {
                            assert(raw[index as int].0 == name);
                        }
                    }
                    if exists|j: int| 0 <= j < index + 1 && #[trigger] raw[j].0 == name {
                        let j = choose|j: int| 0 <= j < index + 1 && #[trigger] raw[j].0 == name;
                        if j < index {
                            assert(lists(names_before, name));
                            let k = choose|k: int| 0 <= k < names_before.len() && names_before[k]@ == name;
                            assert(already_emitted_names@[k]@ == name);
                        } else {
                            assert(already_emitted_names@[names_before.len() as int]@ == name);
                        }
                    }
                }
            }
            let ghost kept_before = deduplicated@;
            deduplicated.push(
                ExportedDispatchEntry {
                    function_name: raw_entry.function_name.clone(),
                    dispatch_argument: raw_entry.dispatch_argument.clone(),
                    dispatch_kind: raw_entry.dispatch_kind,
                },
            );
            assert(entry_views(deduplicated@) =~= entry_views(kept_before).push(raw[index as int]));
        } else {
            proof {
                assert forall|name: Seq<char>|
                    lists(already_emitted_names@, name) <==> exists|j: int|
                        0 <= j < index + 1 && #[trigger] raw[j].0 == name by {
                    if exists|j: int| 0 <= j < index + 1 && #[trigger] raw[j].0 == name {
                        let j = choose|j: int| 0 <= j < index + 1 && #[trigger] raw[j].0 == name;
                        if j == index {
                            assert(lists(already_emitted_names@, raw[index as int].0));
                        }
                    }
                }
            }
        }
        index = index + 1;
    }
    assert(raw.take(raw.len() as int) =~= raw);
    deduplicated
}

/// Every opted-in command, repository and workspace entry with an
/// emittable name, first occurrence of each name winning.
fn collect_exported_dispatch_entries(configuration: &ReportalConfig) -> (collected: Vec<
    ExportedDispatchEntry,
>)
    ensures
        entry_views(collected@) == first_occurrences(collected_entries(*configuration)),
{
    let ghost commands = configuration.commands@;
    let ghost repos = configuration.repos@;
    let ghost workspaces = configuration.workspaces@;
    let mut collected: Vec<ExportedDispatchEntry> = Vec::new();
    let mut index: usize = 0;
    while index < configuration.commands.len()
        invariant
            commands == configuration.commands@,
            index <= commands.len(),
            entry_views(collected@) + command_entries(commands, index as int) == command_entries(
                commands,
                0,
            ),
        decreases commands.len() - index,
    {
        let ghost before = entry_views(collected@);
        append_command_dispatch_entry(
            &mut collected,
            configuration.commands[index].0.as_str(),
            &configuration.commands[index].1,
        );
        assert(entry_views(collected@) + command_entries(commands, index + 1) =~= before
            + command_entries(commands, index as int));
        index = index + 1;
    }
    assert(entry_views(collected@) =~= command_entries(commands, 0));
    let mut index: usize = 0;
    while index < configuration.repos.len()
        invariant
            repos == configuration.repos@,
            index <= repos.len(),
            entry_views(collected@) + repository_entries(repos, index as int) == command_entries(
                commands,
                0,
            ) + repository_entries(repos, 0),
        decreases repos.len() - index,
    {
        let ghost before = entry_views(collected@);
        append_repository_dispatch_entries(
            &mut collected,
            configuration.repos[index].0.as_str(),
            &configuration.repos[index].1,
        );
        assert(entry_views(collected@) + repository_entries(repos, index + 1) =~= before
            + repository_entries(repos, index as int));
        index = index + 1;
    }
    assert(entry_views(collected@) =~= command_entries(commands, 0) + repository_entries(repos, 0));
    let mut index: usize = 0;
    while index < configuration.workspaces.len()
        invariant
            workspaces == configuration.workspaces@,
            index <= workspaces.len(),
            entry_views(collected@) + workspace_entries(workspaces, index as int) == command_entries(
                commands,
                0,
            ) + repository_entries(repos, 0) + workspace_entries(workspaces, 0),
        decreases workspaces.len() - index,
    {
        let ghost before = entry_views(collected@);
        append_workspace_dispatch_entries(
            &mut collected,
            configuration.workspaces[index].0.as_str(),
            &configuration.workspaces[index].1,
        );
        assert(entry_views(collected@) + workspace_entries(workspaces, index + 1) =~= before
            + workspace_entries(workspaces, index as int));
        index = index + 1;
    }
    assert(entry_views(collected@) =~= collected_entries(*configuration));
    deduplicate_by_function_name(&collected)
}

// ---------------------------------------------------------------------
// Rendering
// ---------------------------------------------------------------------

fn render_bash_snippet(exported_entries: &[ExportedDispatchEntry]) -> (rendered: String)
    ensures
        rendered@ == bash_block(entry_views(exported_entries@)),
{
    let ghost entries = entry_views(exported_entries@);
    let mut block: Vec<char> = Vec::new();
    extend_str(&mut block, "# RePortal user-config shell aliases — generated from `shell_alias = true` entries.\n");
    assert(block@ =~= bash_block(entries.take(0)));
    let mut index: usize = 0;
    while index < exported_entries.len()
        invariant
            entries == entry_views(exported_entries@),
            index <= entries.len(),
            block@ == bash_block(entries.take(index as int)),
        decreases entries.len() - index,
    {
        let entry = &exported_entries[index];
        let name = entry.function_name.as_str();
        let argument = entry.dispatch_argument.as_str();
        let ghost before = block@;
        extend_str(&mut block, "unalias ");
        extend_str(&mut block, name);
        extend_str(&mut block, " 2>/dev/null\n");
        match entry.dispatch_kind {
            ExportedDispatchKind::RepositoryJump => {
                extend_str(&mut block, "function ");
                extend_str(&mut block, name);
                extend_str(&mut block, "() { cd \"$(rep jump ");
                extend_str(&mut block, argument);
                extend_str(&mut block, ")\"; rep color; }\n");
            },
            ExportedDispatchKind::WorkspaceJump => {
                extend_str(&mut block, "function ");
                extend_str(&mut block, name);
                extend_str(&mut block, "() { cd \"$(rep workspace jump ");
                extend_str(&mut block, argument);
                extend_str(&mut block, ")\"; rep color; }\n");
            },
            ExportedDispatchKind::ConfiguredCommandRun => {
                extend_str(&mut block, "function ");
                extend_str(&mut block, name);
                extend_str(&mut block, "() { rep run --cmd ");
                extend_str(&mut block, argument);
                extend_str(&mut block, " \"$@\"; }\n");
            },
        }
        proof {
            let taken = entries.take(index + 1);
            assert(taken.drop_last() =~= entries.take(index as int));
            assert(taken.last() == entries[index as int]);
            assert(block@ =~= before + bash_entry_text(entries[index as int]));
        }
        index = index + 1;
    }
    assert(entries.take(entries.len() as int) =~= entries);
    string_of(block.as_slice())
}

fn render_powershell_snippet(exported_entries: &[ExportedDispatchEntry]) -> (rendered: String)
    ensures
        rendered@ == powershell_block(entry_views(exported_entries@)),
{
    let ghost entries = entry_views(exported_entries@);
    let mut block: Vec<char> = Vec::new();
    extend_str(&mut block, "# RePortal user-config shell aliases — generated from `shell_alias = true` entries.\n");
    assert(block@ =~= powershell_block(entries.take(0)));
    let mut index: usize = 0;
    while index < exported_entries.len()
        invariant
            entries == entry_views(exported_entries@),
            index <= entries.len(),
            block@ == powershell_block(entries.take(index as int)),
        decreases entries.len() - index,
    {
        let entry = &exported_entries[index];
        let name = entry.function_name.as_str();
        let argument = entry.dispatch_argument.as_str();
        let ghost before = block@;
        extend_str(&mut block, "Remove-Item Alias:");
        extend_str(&mut block, name);
        extend_str(&mut block, " -ErrorAction SilentlyContinue; function global:");
        extend_str(&mut block, name);
        match entry.dispatch_kind {
            ExportedDispatchKind::RepositoryJump => {
                extend_str(&mut block, " { Set-Location (rep jump ");
                extend_str(&mut block, argument);
                extend_str(&mut block, "); rep color }\n");
            },
            ExportedDispatchKind::WorkspaceJump => {
                extend_str(&mut block, " { Set-Location (rep workspace jump ");
                extend_str(&mut block, argument);
                extend_str(&mut block, "); rep color }\n");
            },
            ExportedDispatchKind::ConfiguredCommandRun => {
                extend_str(&mut block, " { rep run --cmd ");
                extend_str(&mut block, argument);
                extend_str(&mut block, " @args }\n");
            },
        }
        proof {
            let taken = entries.take(index + 1);
            assert(taken.drop_last() =~= entries.take(index as int));
            assert(taken.last() == entries[index as int]);
            assert(block@ =~= before + powershell_entry_text(entries[index as int]));
        }
        index = index + 1;
    }
    assert(entries.take(entries.len() as int) =~= entries);
    string_of(block.as_slice())
}

/// The shell functions for every opted-in entry of the configuration, in
/// the syntax of the target shell; empty when nothing opts in.
pub fn shell_alias_export_snippet(parameters: &ShellAliasEmissionParameters<'_>) -> (snippet: String)
    ensures
        snippet@ == expected_snippet(parameters.target_shell, *parameters.configuration),
{
    let exported_dispatch_entries = collect_exported_dispatch_entries(parameters.configuration);
    if exported_dispatch_entries.len() == 0 {
        return String::new();
    }
    match parameters.target_shell {
        InitializeShell::Zsh | InitializeShell::Bash => render_bash_snippet(
            exported_dispatch_entries.as_slice(),
        ),
        InitializeShell::Powershell => render_powershell_snippet(exported_dispatch_entries.as_slice()),
    }
}

// ---------------------------------------------------------------------
// Laws
// ---------------------------------------------------------------------

proof fn lemma_name_entries_emittable(names: Seq<Seq<char>>, kind: ExportedDispatchKind)
    ensures
        forall|k: int|
            0 <= k < name_entries(names, kind).len() ==> is_emittable(
                #[trigger] name_entries(names, kind)[k].0,
            ),
    decreases names.len(),
{
    if names.len() > 0 {
        lemma_name_entries_emittable(names.drop_last(), kind);
        let rest = name_entries(names.drop_last(), kind);
        if is_emittable(names.last()) {
            let whole = rest.push((names.last(), names.last(), kind));
            assert forall|k: int| 0 <= k < whole.len() implies is_emittable(#[trigger] whole[k].0) by {
                if k < rest.len() {
                    assert(whole[k] == rest[k]);
                }
            }
        }
    }
}

proof fn lemma_command_entries_emittable(commands: Seq<(String, CommandEntry)>, from: int)
    ensures
        forall|k: int|
            0 <= k < command_entries(commands, from).len() ==> is_emittable(
                #[trigger] command_entries(commands, from)[k].0,
            ),
    decreases commands.len() - from,
{
    if 0 <= from < commands.len() {
        let names = if commands[from].1.shell_alias == ShellAliasExport::Enabled {
            seq![commands[from].0@]
        } else {
            Seq::empty()
        };
        let front = name_entries(names, ExportedDispatchKind::ConfiguredCommandRun);
        let rest = command_entries(commands, from + 1);
        lemma_name_entries_emittable(names, ExportedDispatchKind::ConfiguredCommandRun);
        lemma_command_entries_emittable(commands, from + 1);
        assert forall|k: int| 0 <= k < (front + rest).len() implies is_emittable(
            #[trigger] (front + rest)[k].0,
        ) by {
            if k < front.len() {
                assert((front + rest)[k] == front[k]);
            } else {
                assert((front + rest)[k] == rest[k - front.len()]);
            }
        }
    }
}

proof fn lemma_repository_entries_emittable(repos: Seq<(String, RepoEntry)>, from: int)
    ensures
        forall|k: int|
            0 <= k < repository_entries(repos, from).len() ==> is_emittable(
                #[trigger] repository_entries(repos, from)[k].0,
            ),
    decreases repos.len() - from,
{
    if 0 <= from < repos.len() {
        let names = if repos[from].1.shell_alias == ShellAliasExport::Enabled {
            seq![repos[from].0@] + string_views(repos[from].1.aliases@)
        } else {
            Seq::empty()
        };
        let front = name_entries(names, ExportedDispatchKind::RepositoryJump);
        let rest = repository_entries(repos, from + 1);
        lemma_name_entries_emittable(names, ExportedDispatchKind::RepositoryJump);
        lemma_repository_entries_emittable(repos, from + 1);
        assert forall|k: int| 0 <= k < (front + rest).len() implies is_emittable(
            #[trigger] (front + rest)[k].0,
        ) by {
            if k < front.len() {
                assert((front + rest)[k] == front[k]);
            } else {
                assert((front + rest)[k] == rest[k - front.len()]);
            }
        }
    }
}

proof fn lemma_workspace_entries_emittable(workspaces: Seq<(String, WorkspaceEntry)>, from: int)
    ensures
        forall|k: int|
            0 <= k < workspace_entries(workspaces, from).len() ==> is_emittable(
                #[trigger] workspace_entries(workspaces, from)[k].0,
            ),
    decreases workspaces.len() - from,
{
    if 0 <= from < workspaces.len() {
        let names = if workspaces[from].1.shell_alias == ShellAliasExport::Enabled {
            seq![workspaces[from].0@] + string_views(workspaces[from].1.aliases@)
        } else {
            Seq::empty()
        };
        let front = name_entries(names, ExportedDispatchKind::WorkspaceJump);
        let rest = workspace_entries(workspaces, from + 1);
        lemma_name_entries_emittable(names, ExportedDispatchKind::WorkspaceJump);
        lemma_workspace_entries_emittable(workspaces, from + 1);
        assert forall|k: int| 0 <= k < (front + rest).len() implies is_emittable(
            #[trigger] (front + rest)[k].0,
        ) by {
            if k < front.len() {
                assert((front + rest)[k] == front[k]);
            } else {
                assert((front + rest)[k] == rest[k - front.len()]);
            }
        }
    }
}

proof fn lemma_first_occurrences(entries: Seq<EntryView>)
    ensures
        forall|k: int|
            0 <= k < first_occurrences(entries).len() ==> exists|i: int|
                0 <= i < entries.len() && entries[i] == #[trigger] first_occurrences(entries)[k]
                    && !name_seen_before(entries, i),
        forall|k1: int, k2: int|
            0 <= k1 < k2 < first_occurrences(entries).len() ==> #[trigger] first_occurrences(
                entries,
            )[k1].0 != #[trigger] first_occurrences(entries)[k2].0,
    decreases entries.len(),
{
    if entries.len() > 0 {
        let front = entries.drop_last();
        let kept = first_occurrences(front);
        lemma_first_occurrences(front);
        assert forall|i: int| 0 <= i < front.len() implies name_seen_before(front, i)
            == name_seen_before(entries, i) by {
            if name_seen_before(entries, i) {
                let j = choose|j: int| 0 <= j < i && entries[j].0 == entries[i].0;
                assert(front[j].0 == front[i].0);
            }
            if name_seen_before(front, i) {
                let j = choose|j: int| 0 <= j < i && front[j].0 == front[i].0;
                assert(entries[j].0 == entries[i].0);
            }
        }
        let result = first_occurrences(entries);
        assert forall|k: int| 0 <= k < kept.len() implies exists|i: int|
            0 <= i < entries.len() && entries[i] == #[trigger] kept[k] && !name_seen_before(
                entries,
                i,
            ) by {
            let i = choose|i: int|
                0 <= i < front.len() && front[i] == kept[k] && !name_seen_before(front, i);
            assert(entries[i] == kept[k]);
        }
        if !name_seen_before(entries, entries.len() - 1) {
            let last_index = entries.len() - 1;
            assert(result == kept.push(entries.last()));
            assert forall|k: int| 0 <= k < result.len() implies exists|i: int|
                0 <= i < entries.len() && entries[i] == #[trigger] result[k] && !name_seen_before(
                    entries,
                    i,
                ) by {
                if k < kept.len() {
                    assert(result[k] == kept[k]);
                } else {
                    assert(entries[last_index] == result[k]);
                }
            }
            assert forall|k1: int, k2: int| 0 <= k1 < k2 < result.len() implies #[trigger] result[k1].0
                != #[trigger] result[k2].0 by {
                if k2 == kept.len() {
                    assert(result[k1] == kept[k1]);
                    let i = choose|i: int|
                        0 <= i < front.len() && front[i] == kept[k1] && !name_seen_before(front, i);
                    assert(entries[i].0 == kept[k1].0);
                    if kept[k1].0 == entries.last().0 {
                        assert(name_seen_before(entries, last_index));
                    }
                } else {
                    assert(result[k1] == kept[k1]);
                    assert(result[k2] == kept[k2]);
                }
            }
        }
    }
}

/// The functions a snippet defines all have emittable names, no name is
/// defined twice, and each definition is the first candidate with its
/// name in the order commands, then repositories, then workspaces.
pub proof fn lemma_emitted_functions_are_distinct_and_emittable(config: ReportalConfig)
    ensures
        forall|k: int|
            0 <= k < first_occurrences(collected_entries(config)).len() ==> is_emittable(
                #[trigger] first_occurrences(collected_entries(config))[k].0,
            ),
        forall|k1: int, k2: int|
            0 <= k1 < k2 < first_occurrences(collected_entries(config)).len() ==> #[trigger] first_occurrences(
                collected_entries(config),
            )[k1].0 != #[trigger] first_occurrences(collected_entries(config))[k2].0,
        forall|k: int|
            0 <= k < first_occurrences(collected_entries(config)).len() ==> exists|i: int|
                0 <= i < collected_entries(config).len() && collected_entries(config)[i]
                    == #[trigger] first_occurrences(collected_entries(config))[k] && !name_seen_before(
                    collected_entries(config),
                    i,
                ),
{
    let commands = command_entries(config.commands@, 0);
    let repos = repository_entries(config.repos@, 0);
    let workspaces = workspace_entries(config.workspaces@, 0);
    let all = collected_entries(config);
    lemma_command_entries_emittable(config.commands@, 0);
    lemma_repository_entries_emittable(config.repos@, 0);
    lemma_workspace_entries_emittable(config.workspaces@, 0);
    assert forall|i: int| 0 <= i < all.len() implies is_emittable(#[trigger] all[i].0) by {
        if i < commands.len() {
            assert(all[i] == commands[i]);
        } else if i < commands.len() + repos.len() {
            assert(all[i] == repos[i - commands.len()]);
        } else {
            assert(all[i] == workspaces[i - commands.len() - repos.len()]);
        }
    }
    lemma_first_occurrences(all);
    let result = first_occurrences(all);
    assert forall|k: int| 0 <= k < result.len() implies is_emittable(#[trigger] result[k].0) by {
        let i = choose|i: int| 0 <= i < all.len() && all[i] == result[k] && !name_seen_before(all, i);
        assert(is_emittable(all[i].0));
    }
}

} // verus!
