//! The registry model: repositories, workspaces, commands and AI tools,
//! each kept in a vector sorted by key the way a `BTreeMap` iterates, with
//! lookups by key or declared alias and the edits the commands perform.

use vstd::prelude::*;
use crate::error::{ReportalError, is_repo_not_found, is_workspace_not_found};
use crate::key_order::{
    KeyOrder, compare_keys, find_key, insert_sorted, remove_key, keys_sorted, key_position,
};
use crate::text::{chars_of, ends_with_str, trimmed, string_views};

verus! {

// ---------------------------------------------------------------------
// Colors
// ---------------------------------------------------------------------

/// An ASCII hexadecimal digit.
pub open spec fn is_hex_digit(c: char) -> bool {
    ('0' <= c <= '9') || ('a' <= c <= 'f') || ('A' <= c <= 'F')
}

/// The value of a hexadecimal digit.
pub open spec fn hex_digit_value(c: char) -> nat {
    if '0' <= c <= '9' {
        (c as u32 - '0' as u32) as nat
    } else if 'a' <= c <= 'f' {
        (c as u32 - 'a' as u32 + 10) as nat
    } else {
        (c as u32 - 'A' as u32 + 10) as nat
    }
}

/// `#RRGGBB` with six hexadecimal digits of either case.
pub open spec fn is_hex_color(s: Seq<char>) -> bool {
    s.len() == 7 && s[0] == '#' && forall|i: int| 1 <= i < 7 ==> is_hex_digit(#[trigger] s[i])
}

/// The channel value spelled by the two digits at `at`.
pub open spec fn channel_value(s: Seq<char>, at: int) -> nat {
    hex_digit_value(s[at]) * 16 + hex_digit_value(s[at + 1])
}

/// A hexadecimal digit's value does not depend on its case: `0`–`9` are
/// 0–9, and both `a`–`f` and `A`–`F` are 10–15.
pub proof fn lemma_hex_digit_values(k: int)
    requires
        0 <= k < 16,
    ensures
        k < 10 ==> hex_digit_value(('0' as int + k) as char) == k,
        k >= 10 ==> hex_digit_value(('a' as int + (k - 10)) as char) == k,
        k >= 10 ==> hex_digit_value(('A' as int + (k - 10)) as char) == k,
{
}

/// The lowercase spelling of an ASCII letter; any other character as is.
pub open spec fn ascii_lowercase(c: char) -> char {
    if 'A' <= c <= 'Z' {
        ((c as u32) + 32) as char
    } else {
        c
    }
}

/// Spelling a digit in the other case does not change its value.
pub proof fn lemma_hex_digit_value_ignores_case(c: char)
    requires
        is_hex_digit(c),
    ensures
        is_hex_digit(ascii_lowercase(c)),
        hex_digit_value(c) == hex_digit_value(ascii_lowercase(c)),
{
}

/// Two colors spelled alike up to case have the same channels.
pub proof fn lemma_channels_ignore_case(s: Seq<char>, t: Seq<char>)
    requires
        is_hex_color(s),
        is_hex_color(t),
        forall|i: int| 0 <= i < 7 ==> ascii_lowercase(#[trigger] s[i]) == ascii_lowercase(t[i]),
    ensures
        channel_value(s, 1) == channel_value(t, 1),
        channel_value(s, 3) == channel_value(t, 3),
        channel_value(s, 5) == channel_value(t, 5),
{
    assert forall|i: int| 1 <= i < 7 implies hex_digit_value(#[trigger] s[i]) == hex_digit_value(t[i]) by {
        assert(is_hex_digit(s[i]) && is_hex_digit(t[i]));
        assert(ascii_lowercase(s[i]) == ascii_lowercase(t[i]));
        lemma_hex_digit_value_ignores_case(s[i]);
        lemma_hex_digit_value_ignores_case(t[i]);
    }
}

/// A validated `#RRGGBB` color as the user typed it.
pub struct HexColor {
    raw: String,
}

impl View for HexColor {
    type V = Seq<char>;

    closed spec fn view(&self) -> Seq<char> {
        self.raw@
    }
}

fn hex_digit(c: char) -> (value: Option<u8>)
    ensures
        value is Some <==> is_hex_digit(c),
        value matches Some(v) ==> v as nat == hex_digit_value(c) && v < 16,
{
    if '0' <= c && c <= '9' {
        Some((c as u32 - '0' as u32) as u8)
    } else if 'a' <= c && c <= 'f' {
        Some((c as u32 - 'a' as u32 + 10) as u8)
    } else if 'A' <= c && c <= 'F' {
        Some((c as u32 - 'A' as u32 + 10) as u8)
    } else {
        None
    }
}

impl HexColor {
    #[verifier::type_invariant]
    spec fn well_formed(self) -> bool {
        is_hex_color(self.raw@)
    }

    /// Accepts `#RRGGBB`; anything else is `InvalidHexColor`.
    pub fn parse(input: &str) -> (parsed: Result<HexColor, ReportalError>)
        ensures
            parsed is Ok <==> is_hex_color(input@),
            parsed matches Ok(color) ==> color@ == input@,
            parsed matches Err(error) ==> (error matches ReportalError::InvalidHexColor { input: i }
                && i@ == input@),
    {
        let characters = chars_of(input);
        let mut valid = characters.len() == 7 && characters[0] == '#';
        let mut index: usize = 1;
        while valid && index < 7
            invariant
                characters@ == input@,
                valid ==> characters@.len() == 7 && characters@[0] == '#',
                1 <= index <= 7,
                valid ==> forall|k: int| 1 <= k < index ==> is_hex_digit(#[trigger] characters@[k]),
                !valid ==> !is_hex_color(input@),
            decreases 7 - index,
        {
            if hex_digit(characters[index]).is_none() {
                valid = false;
            }
            index = index + 1;
        }
        if valid {
            Ok(HexColor { raw: input.to_owned() })
        } else {
            Err(ReportalError::InvalidHexColor { input: input.to_owned() })
        }
    }

    /// The color exactly as entered.
    pub fn raw_value(&self) -> (raw: &str)
        ensures
            raw@ == self@,
    {
        self.raw.as_str()
    }

    /// An identical color.
    pub fn duplicate(&self) -> (copy: HexColor)
        ensures
            copy@ == self@,
    {
        proof {
            use_type_invariant(self);
        }
        HexColor { raw: self.raw.clone() }
    }

    /// The red, green and blue channels.
    pub fn as_rgb_bytes(&self) -> (channels: Result<(u8, u8, u8), ReportalError>)
        ensures
            channels matches Ok((red, green, blue)) && red as nat == channel_value(self@, 1)
                && green as nat == channel_value(self@, 3) && blue as nat == channel_value(self@, 5),
    {
        proof {
            use_type_invariant(self);
        }
        let characters = chars_of(self.raw.as_str());
        assert(is_hex_digit(characters@[1]) && is_hex_digit(characters@[2]));
        assert(is_hex_digit(characters@[3]) && is_hex_digit(characters@[4]));
        assert(is_hex_digit(characters@[5]) && is_hex_digit(characters@[6]));
        let r1 = hex_digit(characters[1]).unwrap();
        let r2 = hex_digit(characters[2]).unwrap();
        let g1 = hex_digit(characters[3]).unwrap();
        let g2 = hex_digit(characters[4]).unwrap();
        let b1 = hex_digit(characters[5]).unwrap();
        let b2 = hex_digit(characters[6]).unwrap();
        Ok((r1 * 16 + r2, g1 * 16 + g2, b1 * 16 + b2))
    }
}

/// A tab title: a custom label, or the entry's own name.
pub enum TabTitle {
    Custom(String),
    UseAlias,
}

/// An accent color, or none (the terminal default).
pub enum RepoColor {
    Themed(HexColor),
    ResetToDefault,
}

impl RepoColor {
    /// The color when one is set.
    pub fn themed_hex_color(&self) -> (color: Option<&HexColor>)
        ensures
            match self {
                RepoColor::Themed(hex) => color == Some(hex),
                RepoColor::ResetToDefault => color is None,
            },
    {
        match self {
            RepoColor::Themed(hex) => Some(hex),
            RepoColor::ResetToDefault => None,
        }
    }
}

/// Whether an entry asks for a top-level shell function.
#[derive(PartialEq, Eq, Structural)]
pub enum ShellAliasExport {
    Enabled,
    Disabled,
}

/// Whether commands print the selected path on stderr.
#[derive(PartialEq, Eq, Structural)]
pub enum PathVisibility {
    Show,
    Hide,
}

/// How printed paths are written.
#[derive(PartialEq, Eq, Structural, Clone, Copy)]
pub enum PathDisplayFormat {
    /// As resolved.
    Native,
    /// With every `\` written as `/`.
    ForwardSlashes,
}

// ---------------------------------------------------------------------
// Entries
// ---------------------------------------------------------------------

/// The text of the strings in a vector.
pub open spec fn texts(strings: Seq<String>) -> Seq<Seq<char>> {
    string_views(strings)
}

/// `name` is one of the strings.
pub open spec fn lists(strings: Seq<String>, name: Seq<char>) -> bool {
    exists|i: int| 0 <= i < strings.len() && strings[i]@ == name
}

/// Whether `name` is one of the strings.
pub fn list_contains(strings: &Vec<String>, name: &str) -> (found: bool)
    ensures
        found == lists(strings@, name@),
{
    let mut index: usize = 0;
    while index < strings.len()
        invariant
            index <= strings@.len(),
            forall|k: int| 0 <= k < index ==> strings@[k]@ != name@,
        decreases strings@.len() - index,
    {
        if let KeyOrder::Same = compare_keys(strings[index].as_str(), name) {
            return true;
        }
        index = index + 1;
    }
    false
}

/// Text equality of two string slices.
pub fn same_text(a: &str, b: &str) -> (same: bool)
    ensures
        same == (a@ == b@),
{
    match compare_keys(a, b) {
        KeyOrder::Same => true,
        _ => false,
    }
}

/// A user-defined shell command.
pub struct CommandEntry {
    pub command: String,
    pub description: String,
    pub shell_alias: ShellAliasExport,
}

/// A configured AI coding tool.
pub struct AiToolEntry {
    pub cli_command: String,
    pub launch_args: Vec<String>,
}

/// A registered repository.
pub struct RepoEntry {
    /// Path as written in the configuration (may start with `~`).
    pub path: String,
    pub description: String,
    pub tags: Vec<String>,
    pub remote: String,
    pub title: TabTitle,
    pub color: RepoColor,
    /// Extra names the repository answers to.
    pub aliases: Vec<String>,
    pub shell_alias: ShellAliasExport,
    /// Commands that override or extend the global ones, sorted by name.
    pub commands: Vec<(String, CommandEntry)>,
}

impl RepoEntry {
    /// The repository carries `tag`.
    pub open spec fn has_tag(&self, tag: Seq<char>) -> bool {
        lists(self.tags@, tag)
    }

    /// The repository declares `name` as an alias.
    pub open spec fn declares_alias(&self, name: Seq<char>) -> bool {
        lists(self.aliases@, name)
    }

    /// A repository at `path` with nothing else set.
    pub fn at_path(path: String) -> (entry: RepoEntry)
        ensures
            entry.path@ == path@,
            entry.description@.len() == 0,
            entry.tags@.len() == 0,
            entry.remote@.len() == 0,
            entry.title is UseAlias,
            entry.color is ResetToDefault,
            entry.aliases@.len() == 0,
            entry.shell_alias == ShellAliasExport::Disabled,
            entry.commands@.len() == 0,
    {
        RepoEntry {
            path,
            description: String::new(),
            tags: Vec::new(),
            remote: String::new(),
            title: TabTitle::UseAlias,
            color: RepoColor::ResetToDefault,
            aliases: Vec::new(),
            shell_alias: ShellAliasExport::Disabled,
            commands: Vec::new(),
        }
    }

    /// The path with a leading `~` expanded.
    pub open spec fn resolved_path_view(&self, home: Option<String>) -> Seq<char> {
        crate::home::tilde_expansion(self.path@, crate::home::home_view(home))
    }

    /// The path with a leading `~` expanded by the given home directory.
    pub fn resolved_path(&self, home: &Option<String>) -> (path: String)
        ensures
            path@ == self.resolved_path_view(*home),
    {
        crate::home::expand_tilde_with_home(self.path.as_str(), home)
    }

    /// Whether the repository carries `tag`.
    pub fn carries_tag(&self, tag: &str) -> (found: bool)
        ensures
            found == self.has_tag(tag@),
    {
        list_contains(&self.tags, tag)
    }

    /// Whether the repository declares `name` as an alias.
    pub fn answers_to_alias(&self, name: &str) -> (found: bool)
        ensures
            found == self.declares_alias(name@),
    {
        list_contains(&self.aliases, name)
    }
}

/// One member of a workspace.
pub enum WorkspaceMember {
    /// A registered repository, by the alias the workspace lists.
    RegisteredRepo(String),
    /// A directory that is not registered, by path.
    InlinePath { path: String },
}

/// The repository aliases among the members, in member order.
pub open spec fn registered_aliases(members: Seq<WorkspaceMember>) -> Seq<Seq<char>>
    decreases members.len(),
{
    if members.len() == 0 {
        seq![]
    } else {
        let rest = registered_aliases(members.drop_last());
        match members.last() {
            WorkspaceMember::RegisteredRepo(alias) => rest.push(alias@),
            WorkspaceMember::InlinePath { .. } => rest,
        }
    }
}

/// The alias a registered-repository member lists; empty for a path.
pub open spec fn listed_alias(member: WorkspaceMember) -> Seq<char> {
    match member {
        WorkspaceMember::RegisteredRepo(alias) => alias@,
        WorkspaceMember::InlinePath { .. } => Seq::empty(),
    }
}

/// A member refers to the registered repository `alias`.
pub open spec fn member_is_repo(member: WorkspaceMember, alias: Seq<char>) -> bool {
    member matches WorkspaceMember::RegisteredRepo(listed) && listed@ == alias
}

/// A named group of repositories.
pub struct WorkspaceEntry {
    pub members: Vec<WorkspaceMember>,
    pub description: String,
    /// Directory as written in the configuration; empty means the default.
    pub directory: String,
    pub aliases: Vec<String>,
    pub shell_alias: ShellAliasExport,
    pub title: TabTitle,
    pub color: RepoColor,
}

impl WorkspaceEntry {
    /// The workspace lists repository `alias` among its members.
    pub open spec fn has_repo(&self, alias: Seq<char>) -> bool {
        exists|i: int| 0 <= i < self.members@.len() && member_is_repo(self.members@[i], alias)
    }

    /// The workspace declares `name` as an alias.
    pub open spec fn declares_alias(&self, name: Seq<char>) -> bool {
        lists(self.aliases@, name)
    }

    /// A workspace of the given members with nothing else set.
    pub fn of_members(members: Vec<WorkspaceMember>) -> (entry: WorkspaceEntry)
        ensures
            entry.members@ == members@,
            entry.description@.len() == 0,
            entry.directory@.len() == 0,
            entry.aliases@.len() == 0,
            entry.shell_alias == ShellAliasExport::Disabled,
            entry.title is UseAlias,
            entry.color is ResetToDefault,
    {
        WorkspaceEntry {
            members,
            description: String::new(),
            directory: String::new(),
            aliases: Vec::new(),
            shell_alias: ShellAliasExport::Disabled,
            title: TabTitle::UseAlias,
            color: RepoColor::ResetToDefault,
        }
    }

    /// The repository aliases among the members, in member order.
    pub fn repo_aliases(&self) -> (aliases: Vec<String>)
        ensures
            string_views(aliases@) == registered_aliases(self.members@),
    {
        let mut aliases: Vec<String> = Vec::new();
        let mut index: usize = 0;
        while index < self.members.len()
            invariant
                index <= self.members@.len(),
                string_views(aliases@) == registered_aliases(self.members@.take(index as int)),
            decreases self.members@.len() - index,
        {
            let ghost before = aliases@;
            let ghost prefix = self.members@.take(index as int + 1);
            assert(prefix.drop_last() =~= self.members@.take(index as int));
            assert(prefix.last() == self.members@[index as int]);
            match &self.members[index] {
                WorkspaceMember::RegisteredRepo(alias) => {
                    aliases.push(alias.clone());
                    assert(string_views(aliases@) =~= string_views(before).push(alias@));
                },
                WorkspaceMember::InlinePath { .. } => {},
            }
            index = index + 1;
        }
        assert(self.members@.take(index as int) =~= self.members@);
        aliases
    }

    /// Whether the workspace lists repository `alias` among its members.
    pub fn contains_repo(&self, alias: &str) -> (found: bool)
        ensures
            found == self.has_repo(alias@),
    {
        let mut index: usize = 0;
        while index < self.members.len()
            invariant
                index <= self.members@.len(),
                forall|k: int| 0 <= k < index ==> !member_is_repo(self.members@[k], alias@),
            decreases self.members@.len() - index,
        {
            match &self.members[index] {
                WorkspaceMember::RegisteredRepo(listed) => {
                    if same_text(listed.as_str(), alias) {
                        return true;
                    }
                },
                WorkspaceMember::InlinePath { .. } => {},
            }
            index = index + 1;
        }
        false
    }

    /// Whether the workspace declares `name` as an alias.
    pub fn answers_to_alias(&self, name: &str) -> (found: bool)
        ensures
            found == self.declares_alias(name@),
    {
        list_contains(&self.aliases, name)
    }

    /// The configured directory still names a pre-directory-layout
    /// `.code-workspace` file.
    pub open spec fn legacy_file_path(&self) -> bool {
        crate::text::has_suffix(crate::text::trim(self.directory@), ".code-workspace"@)
    }

    /// Whether the configured directory still names a `.code-workspace`
    /// file.
    pub fn is_legacy_file_path(&self) -> (legacy: bool)
        ensures
            legacy == self.legacy_file_path(),
    {
        let raw = chars_of(self.directory.as_str());
        let cleaned = trimmed(raw.as_slice());
        ends_with_str(cleaned.as_slice(), ".code-workspace")
    }
}

/// Which repositories a command considers.
pub enum TagFilter {
    All,
    ByTag(String),
}

/// Which workspaces a listing shows.
pub enum WorkspaceFilter {
    All,
    ByName(String),
}

/// The repository passes the filter; a tag filter with an empty tag
/// passes everything.
pub open spec fn passes_tag_filter(entry: RepoEntry, filter: TagFilter) -> bool {
    match filter {
        TagFilter::All => true,
        TagFilter::ByTag(tag) => tag@.len() == 0 || entry.has_tag(tag@),
    }
}

// ---------------------------------------------------------------------
// Lookup specifications
// ---------------------------------------------------------------------

/// First repository, from `from` on, that declares `name` as an alias.
pub open spec fn repo_alias_scan(repos: Seq<(String, RepoEntry)>, name: Seq<char>, from: int)
    -> Option<int>
    decreases repos.len() - from,
{
    if from < 0 || from >= repos.len() {
        None
    } else if repos[from].1.declares_alias(name) {
        Some(from)
    } else {
        repo_alias_scan(repos, name, from + 1)
    }
}

/// The repository that `name` selects: the one registered under that
/// key, else the first (in key order) that declares it as an alias.
pub open spec fn repo_lookup(repos: Seq<(String, RepoEntry)>, name: Seq<char>) -> Option<int> {
    match key_position(repos, name) {
        Some(position) => Some(position),
        None => repo_alias_scan(repos, name, 0),
    }
}

/// First workspace, from `from` on, that declares `name` as an alias.
pub open spec fn workspace_alias_scan(
    workspaces: Seq<(String, WorkspaceEntry)>,
    name: Seq<char>,
    from: int,
) -> Option<int>
    decreases workspaces.len() - from,
{
    if from < 0 || from >= workspaces.len() {
        None
    } else if workspaces[from].1.declares_alias(name) {
        Some(from)
    } else {
        workspace_alias_scan(workspaces, name, from + 1)
    }
}

/// The workspace that `name` selects, by name or else by alias.
pub open spec fn workspace_lookup(workspaces: Seq<(String, WorkspaceEntry)>, name: Seq<char>)
    -> Option<int> {
    match key_position(workspaces, name) {
        Some(position) => Some(position),
        None => workspace_alias_scan(workspaces, name, 0),
    }
}

/// Names of the workspaces, from `from` on, that list repository `alias`.
pub open spec fn containing_workspaces(
    workspaces: Seq<(String, WorkspaceEntry)>,
    alias: Seq<char>,
    from: int,
) -> Seq<Seq<char>>
    decreases workspaces.len() - from,
{
    if from < 0 || from >= workspaces.len() {
        seq![]
    } else if workspaces[from].1.has_repo(alias) {
        seq![workspaces[from].0@] + containing_workspaces(workspaces, alias, from + 1)
    } else {
        containing_workspaces(workspaces, alias, from + 1)
    }
}

/// Positions of the repositories, from `from` on, that pass the filter.
pub open spec fn filtered_positions(repos: Seq<(String, RepoEntry)>, filter: TagFilter, from: int)
    -> Seq<int>
    decreases repos.len() - from,
{
    if from < 0 || from >= repos.len() {
        seq![]
    } else if passes_tag_filter(repos[from].1, filter) {
        seq![from] + filtered_positions(repos, filter, from + 1)
    } else {
        filtered_positions(repos, filter, from + 1)
    }
}

proof fn lemma_workspace_alias_scan_bounds(workspaces: Seq<(String, WorkspaceEntry)>, name: Seq<char>, from: int)
    ensures
        workspace_alias_scan(workspaces, name, from) matches Some(i) ==> from <= i < workspaces.len(),
    decreases workspaces.len() - from,
{
    if 0 <= from < workspaces.len() && !workspaces[from].1.declares_alias(name) {
        lemma_workspace_alias_scan_bounds(workspaces, name, from + 1);
    }
}

proof fn lemma_repo_alias_scan_bounds(repos: Seq<(String, RepoEntry)>, name: Seq<char>, from: int)
    ensures
        repo_alias_scan(repos, name, from) matches Some(i) ==> from <= i < repos.len(),
    decreases repos.len() - from,
{
    if 0 <= from < repos.len() && !repos[from].1.declares_alias(name) {
        lemma_repo_alias_scan_bounds(repos, name, from + 1);
    }
}

/// A workspace lookup lands on a position of the sequence.
pub proof fn lemma_workspace_lookup_bounds(workspaces: Seq<(String, WorkspaceEntry)>, name: Seq<char>)
    ensures
        workspace_lookup(workspaces, name) matches Some(i) ==> 0 <= i < workspaces.len(),
{
    lemma_workspace_alias_scan_bounds(workspaces, name, 0);
}

/// A repository lookup lands on a position of the sequence.
pub proof fn lemma_repo_lookup_bounds(repos: Seq<(String, RepoEntry)>, name: Seq<char>)
    ensures
        repo_lookup(repos, name) matches Some(i) ==> 0 <= i < repos.len(),
{
    lemma_repo_alias_scan_bounds(repos, name, 0);
}

/// Filtered positions are positions of the sequence, from `from` on.
pub proof fn lemma_filtered_positions_in_range(repos: Seq<(String, RepoEntry)>, filter: TagFilter, from: int)
    requires
        0 <= from,
    ensures
        forall|k: int|
            0 <= k < filtered_positions(repos, filter, from).len() ==> from <= #[trigger] filtered_positions(
                repos,
                filter,
                from,
            )[k] < repos.len(),
    decreases repos.len() - from,
{
    if from < repos.len() {
        lemma_filtered_positions_in_range(repos, filter, from + 1);
        let rest = filtered_positions(repos, filter, from + 1);
        if passes_tag_filter(repos[from].1, filter) {
            let whole = seq![from] + rest;
            assert forall|k: int| 0 <= k < whole.len() implies from <= #[trigger] whole[k] < repos.len() by {
                if k > 0 {
                    assert(whole[k] == rest[k - 1]);
                }
            }
        }
    }
}

// ---------------------------------------------------------------------
// The registry
// ---------------------------------------------------------------------

/// The whole registry.
pub struct ReportalConfig {
    pub repos: Vec<(String, RepoEntry)>,
    pub workspaces: Vec<(String, WorkspaceEntry)>,
    pub commands: Vec<(String, CommandEntry)>,
    pub ai_tools: Vec<(String, AiToolEntry)>,
    pub default_ai_tool: String,
    pub default_editor: String,
    pub path_on_select: PathVisibility,
    pub path_display_format: PathDisplayFormat,
}

/// The settings outside the repositories and workspaces agree: commands,
/// AI tools, the default AI tool, the default editor, path visibility and
/// the path display format.
pub open spec fn same_settings(a: ReportalConfig, b: ReportalConfig) -> bool {
    &&& a.commands == b.commands
    &&& a.ai_tools == b.ai_tools
    &&& a.default_ai_tool == b.default_ai_tool
    &&& a.default_editor == b.default_editor
    &&& a.path_on_select == b.path_on_select
    &&& a.path_display_format == b.path_display_format
}

/// Two workspace entries agree on everything but their members.
pub open spec fn same_apart_from_members(a: WorkspaceEntry, b: WorkspaceEntry) -> bool {
    &&& a.description == b.description
    &&& a.directory == b.directory
    &&& a.aliases == b.aliases
    &&& a.shell_alias == b.shell_alias
    &&& a.title == b.title
    &&& a.color == b.color
}

/// Two workspace entries agree on everything but their directory.
pub open spec fn same_apart_from_directory(a: WorkspaceEntry, b: WorkspaceEntry) -> bool {
    &&& a.members == b.members
    &&& a.description == b.description
    &&& a.aliases == b.aliases
    &&& a.shell_alias == b.shell_alias
    &&& a.title == b.title
    &&& a.color == b.color
}

impl ReportalConfig {
    /// Every keyed collection is sorted by key, as a `BTreeMap` keeps it.
    pub open spec fn wf(&self) -> bool {
        &&& keys_sorted(self.repos@)
        &&& keys_sorted(self.workspaces@)
        &&& keys_sorted(self.commands@)
        &&& keys_sorted(self.ai_tools@)
        &&& forall|i: int| 0 <= i < self.repos@.len() ==> keys_sorted(#[trigger] self.repos@[i].1.commands@)
    }

    /// An empty registry.
    pub fn new(default_editor: String) -> (config: ReportalConfig)
        ensures
            config.wf(),
            config.repos@.len() == 0,
            config.workspaces@.len() == 0,
            config.commands@.len() == 0,
            config.ai_tools@.len() == 0,
            config.default_ai_tool@.len() == 0,
            config.default_editor@ == default_editor@,
            config.path_on_select == PathVisibility::Hide,
            config.path_display_format == PathDisplayFormat::Native,
    {
        ReportalConfig {
            repos: Vec::new(),
            workspaces: Vec::new(),
            commands: Vec::new(),
            ai_tools: Vec::new(),
            default_ai_tool: String::new(),
            default_editor,
            path_on_select: PathVisibility::Hide,
            path_display_format: PathDisplayFormat::Native,
        }
    }

    /// Checks the ordering invariant, for registries built outside the library.
    pub fn is_well_formed(&self) -> (valid: bool)
        ensures
            valid == self.wf(),
    {
        let repos_sorted = entries_sorted(&self.repos);
        let workspaces_sorted = entries_sorted(&self.workspaces);
        let commands_sorted = entries_sorted(&self.commands);
        let tools_sorted = entries_sorted(&self.ai_tools);
        let mut index: usize = 0;
        while index < self.repos.len()
            invariant
                index <= self.repos@.len(),
                forall|k: int| 0 <= k < index ==> keys_sorted(#[trigger] self.repos@[k].1.commands@),
            decreases self.repos@.len() - index,
        {
            if !entries_sorted(&self.repos[index].1.commands) {
                return false;
            }
            index = index + 1;
        }
        repos_sorted && workspaces_sorted && commands_sorted && tools_sorted
    }

    /// The repositories in key order.
    pub fn repos_with_aliases(&self) -> (repos: &Vec<(String, RepoEntry)>)
        ensures
            repos@ == self.repos@,
    {
        &self.repos
    }

    /// The workspaces in name order.
    pub fn workspaces_with_names(&self) -> (workspaces: &Vec<(String, WorkspaceEntry)>)
        ensures
            workspaces@ == self.workspaces@,
    {
        &self.workspaces
    }

    /// The global commands in name order.
    pub fn global_commands(&self) -> (commands: &Vec<(String, CommandEntry)>)
        ensures
            commands@ == self.commands@,
    {
        &self.commands
    }

    /// Position of the repository that `name` selects.
    pub fn repo_position(&self, name: &str) -> (found: Option<usize>)
        requires
            self.wf(),
        ensures
            found matches Some(index) ==> index < self.repos@.len() && repo_lookup(self.repos@, name@)
                == Some(index as int),
            found is None ==> repo_lookup(self.repos@, name@) is None,
    {
        match find_key(&self.repos, name) {
            Some(index) => Some(index),
            None => {
                let mut index: usize = 0;
                while index < self.repos.len()
                    invariant
                        index <= self.repos@.len(),
                        key_position(self.repos@, name@) is None,
                        repo_alias_scan(self.repos@, name@, 0) == repo_alias_scan(
                            self.repos@,
                            name@,
                            index as int,
                        ),
                    decreases self.repos@.len() - index,
                {
                    if self.repos[index].1.answers_to_alias(name) {
                        return Some(index);
                    }
                    index = index + 1;
                }
                None
            },
        }
    }

    /// The repository that `name` selects, by key or else by alias.
    pub fn get_repo(&self, name: &str) -> (found: Result<&RepoEntry, ReportalError>)
        requires
            self.wf(),
        ensures
            match repo_lookup(self.repos@, name@) {
                Some(index) => found matches Ok(entry) && *entry == self.repos@[index].1,
                None => found matches Err(error) && is_repo_not_found(error, name@),
            },
    {
        match self.repo_position(name) {
            Some(index) => Ok(&self.repos[index].1),
            None => Err(ReportalError::RepoNotFound { alias: name.to_owned() }),
        }
    }

    /// Position of the workspace registered under exactly `name`.
    pub fn workspace_position(&self, name: &str) -> (found: Option<usize>)
        requires
            self.wf(),
        ensures
            found matches Some(index) ==> key_position(self.workspaces@, name@) == Some(
                index as int,
            ),
            found is None ==> key_position(self.workspaces@, name@) is None,
    {
        find_key(&self.workspaces, name)
    }

    /// The workspace registered under exactly `name`.
    pub fn get_workspace(&self, name: &str) -> (found: Result<&WorkspaceEntry, ReportalError>)
        requires
            self.wf(),
        ensures
            match key_position(self.workspaces@, name@) {
                Some(index) => found matches Ok(entry) && *entry == self.workspaces@[index].1,
                None => found matches Err(error) && is_workspace_not_found(error, name@),
            },
    {
        match find_key(&self.workspaces, name) {
            Some(index) => Ok(&self.workspaces[index].1),
            None => Err(ReportalError::WorkspaceNotFound { name: name.to_owned() }),
        }
    }

    /// The canonical name of the workspace that `name` selects, by name or
    /// else by alias.
    pub fn resolve_workspace_canonical_name(&self, name: &str) -> (resolved: Result<
        String,
        ReportalError,
    >)
        requires
            self.wf(),
        ensures
            match workspace_lookup(self.workspaces@, name@) {
                Some(index) => resolved matches Ok(canonical) && canonical@
                    == self.workspaces@[index].0@,
                None => resolved matches Err(error) && is_workspace_not_found(error, name@),
            },
    {
        match find_key(&self.workspaces, name) {
            Some(index) => Ok(self.workspaces[index].0.clone()),
            None => {
                let mut index: usize = 0;
                while index < self.workspaces.len()
                    invariant
                        index <= self.workspaces@.len(),
                        key_position(self.workspaces@, name@) is None,
                        workspace_alias_scan(self.workspaces@, name@, 0) == workspace_alias_scan(
                            self.workspaces@,
                            name@,
                            index as int,
                        ),
                    decreases self.workspaces@.len() - index,
                {
                    if self.workspaces[index].1.answers_to_alias(name) {
                        return Ok(self.workspaces[index].0.clone());
                    }
                    index = index + 1;
                }
                Err(ReportalError::WorkspaceNotFound { name: name.to_owned() })
            },
        }
    }

    /// Names of the workspaces that list repository `alias`, in name order.
    pub fn workspaces_containing_repo(&self, alias: &str) -> (names: Vec<String>)
        ensures
            string_views(names@) == containing_workspaces(self.workspaces@, alias@, 0),
    {
        let mut names: Vec<String> = Vec::new();
        let mut index: usize = 0;
        while index < self.workspaces.len()
            invariant
                index <= self.workspaces@.len(),
                string_views(names@) + containing_workspaces(self.workspaces@, alias@, index as int)
                    == containing_workspaces(self.workspaces@, alias@, 0),
            decreases self.workspaces@.len() - index,
        {
            if self.workspaces[index].1.contains_repo(alias) {
                let ghost before = names@;
                names.push(self.workspaces[index].0.clone());
                assert(string_views(names@) =~= string_views(before).push(
                    self.workspaces@[index as int].0@,
                ));
                assert(string_views(names@) + containing_workspaces(
                    self.workspaces@,
                    alias@,
                    index + 1,
                ) =~= string_views(before) + containing_workspaces(
                    self.workspaces@,
                    alias@,
                    index as int,
                ));
            }
            index = index + 1;
        }
        assert(string_views(names@) + Seq::<Seq<char>>::empty() =~= string_views(names@));
        names
    }

    /// Positions of the repositories that pass the tag filter, in key order.
    pub fn repos_matching_tag_filter(&self, filter: &TagFilter) -> (positions: Vec<usize>)
        ensures
            positions@.map_values(|p: usize| p as int) == filtered_positions(
                self.repos@,
                *filter,
                0,
            ),
    {
        let mut positions: Vec<usize> = Vec::new();
        let mut index: usize = 0;
        while index < self.repos.len()
            invariant
                index <= self.repos@.len(),
                positions@.map_values(|p: usize| p as int) + filtered_positions(
                    self.repos@,
                    *filter,
                    index as int,
                ) == filtered_positions(self.repos@, *filter, 0),
            decreases self.repos@.len() - index,
        {
            let passes = match filter {
                TagFilter::All => true,
                TagFilter::ByTag(tag) => tag.unicode_len() == 0 || self.repos[index].1.carries_tag(
                    tag.as_str(),
                ),
            };
            if passes {
                let ghost before = positions@;
                positions.push(index);
                assert(positions@.map_values(|p: usize| p as int) =~= before.map_values(
                    |p: usize| p as int,
                ).push(index as int));
                assert(positions@.map_values(|p: usize| p as int) + filtered_positions(
                    self.repos@,
                    *filter,
                    index + 1,
                ) =~= before.map_values(|p: usize| p as int) + filtered_positions(
                    self.repos@,
                    *filter,
                    index as int,
                ));
            }
            index = index + 1;
        }
        assert(positions@.map_values(|p: usize| p as int) + Seq::<int>::empty() =~= positions@.map_values(
            |p: usize| p as int,
        ));
        positions
    }

    /// Registers a repository under a new key.
    pub fn add_repo(&mut self, alias: String, entry: RepoEntry) -> (outcome: Result<
        (),
        ReportalError,
    >)
        requires
            old(self).wf(),
            keys_sorted(entry.commands@),
        ensures
            final(self).wf(),
            same_settings(*final(self), *old(self)),
            final(self).workspaces == old(self).workspaces,
            final(self).commands == old(self).commands,
            outcome is Ok <==> key_position(old(self).repos@, alias@) is None,
            outcome matches Ok(_) ==> exists|position: int|
                0 <= position <= old(self).repos@.len() && final(self).repos@ == old(self).repos@.insert(position, (alias, entry)),
            outcome matches Err(error) ==> final(self).repos@ == old(self).repos@ && (
            error matches ReportalError::RepoAlreadyRegistered { alias: taken } && taken@
                == alias@),
    {
        let taken = alias.clone();
        let ghost before = self.repos@;
        match insert_sorted(&mut self.repos, alias, entry) {
            Ok(position) => {
                proof {
                    assert forall|i: int| 0 <= i < self.repos@.len() implies keys_sorted(
                        #[trigger] self.repos@[i].1.commands@,
                    ) by {
                        if i < position {
                            assert(self.repos@[i] == before[i]);
                        } else if i > position {
                            assert(self.repos@[i] == before[i - 1]);
                        }
                    }
                    if key_position(before, taken@) is Some {
                        let chosen = choose|i: int| 0 <= i < before.len() && before[i].0@ == taken@;
                        assert(before[chosen].0@ != taken@);
                    }
                }
                Ok(())
            },
            Err(_returned) => {
                Err(ReportalError::RepoAlreadyRegistered { alias: taken })
            },
        }
    }

    /// Unregisters the repository stored under exactly `alias`.
    pub fn remove_repo(&mut self, alias: &str) -> (removed: Result<RepoEntry, ReportalError>)
        requires
            old(self).wf(),
        ensures
            final(self).wf(),
            same_settings(*final(self), *old(self)),
            final(self).workspaces == old(self).workspaces,
            final(self).commands == old(self).commands,
            removed is Ok <==> key_position(old(self).repos@, alias@) is Some,
            removed matches Ok(entry) ==> exists|i: int|
                0 <= i < old(self).repos@.len() && old(self).repos@[i].0@ == alias@ && old(self).repos@[i].1 == entry && final(self).repos@ == old(self).repos@.remove(i),
            removed matches Err(error) ==> final(self).repos@ == old(self).repos@
                && is_repo_not_found(error, alias@),
            key_position(final(self).repos@, alias@) is None,
    {
        let ghost before = self.repos@;
        match remove_key(&mut self.repos, alias) {
            Some(entry) => {
                proof {
                    let i = choose|i: int|
                        0 <= i < before.len() && before[i].0@ == alias@ && before[i].1 == entry
                            && self.repos@ == before.remove(i);
                    assert forall|k: int| 0 <= k < self.repos@.len() implies keys_sorted(
                        #[trigger] self.repos@[k].1.commands@,
                    ) by {
                        if k < i {
                            assert(self.repos@[k] == before[k]);
                        } else {
                            assert(self.repos@[k] == before[k + 1]);
                        }
                    }
                }
                Ok(entry)
            },
            None => Err(ReportalError::RepoNotFound { alias: alias.to_owned() }),
        }
    }

    /// Registers a workspace under a new name.
    pub fn add_workspace(&mut self, name: String, entry: WorkspaceEntry) -> (outcome: Result<
        (),
        ReportalError,
    >)
        requires
            old(self).wf(),
        ensures
            final(self).wf(),
            same_settings(*final(self), *old(self)),
            final(self).repos == old(self).repos,
            final(self).commands == old(self).commands,
            outcome is Ok <==> key_position(old(self).workspaces@, name@) is None,
            outcome matches Ok(_) ==> exists|position: int|
                0 <= position <= old(self).workspaces@.len() && final(self).workspaces@ == old(self).workspaces@.insert(position, (name, entry)),
            outcome matches Err(error) ==> final(self).workspaces@ == old(self).workspaces@ && (
            error matches ReportalError::WorkspaceAlreadyRegistered { name: taken } && taken@
                == name@),
    {
        let taken = name.clone();
        let ghost before = self.workspaces@;
        match insert_sorted(&mut self.workspaces, name, entry) {
            Ok(_position) => {
                proof {
                    if key_position(before, taken@) is Some {
                        let chosen = choose|i: int| 0 <= i < before.len() && before[i].0@ == taken@;
                        assert(before[chosen].0@ != taken@);
                    }
                }
                Ok(())
            },
            Err(_returned) => Err(ReportalError::WorkspaceAlreadyRegistered { name: taken }),
        }
    }

    /// Unregisters the workspace stored under exactly `name`.
    pub fn remove_workspace(&mut self, name: &str) -> (removed: Result<
        WorkspaceEntry,
        ReportalError,
    >)
        requires
            old(self).wf(),
        ensures
            final(self).wf(),
            same_settings(*final(self), *old(self)),
            final(self).repos == old(self).repos,
            final(self).commands == old(self).commands,
            removed is Ok <==> key_position(old(self).workspaces@, name@) is Some,
            removed matches Ok(entry) ==> exists|i: int|
                0 <= i < old(self).workspaces@.len() && old(self).workspaces@[i].0@ == name@ && old(self).workspaces@[i].1 == entry && final(self).workspaces@ == old(self).workspaces@.remove(i),
            removed matches Err(error) ==> final(self).workspaces@ == old(self).workspaces@
                && is_workspace_not_found(error, name@),
            key_position(final(self).workspaces@, name@) is None,
    {
        match remove_key(&mut self.workspaces, name) {
            Some(entry) => Ok(entry),
            None => Err(ReportalError::WorkspaceNotFound { name: name.to_owned() }),
        }
    }

    /// Replaces the members of the workspace at `index`, keeping its name
    /// and every other field.
    pub fn set_workspace_members(&mut self, index: usize, members: Vec<WorkspaceMember>)
        requires
            old(self).wf(),
            index < old(self).workspaces@.len(),
        ensures
            final(self).wf(),
            same_settings(*final(self), *old(self)),
            final(self).repos == old(self).repos,
            final(self).commands == old(self).commands,
            final(self).workspaces@.len() == old(self).workspaces@.len(),
            final(self).workspaces@[index as int].0 == old(self).workspaces@[index as int].0,
            final(self).workspaces@[index as int].1.members@ == members@,
            final(self).workspaces@[index as int].1.description == old(self).workspaces@[index as int].1.description,
            final(self).workspaces@[index as int].1.directory == old(self).workspaces@[index as int].1.directory,
            same_apart_from_members(final(self).workspaces@[index as int].1, old(self).workspaces@[index as int].1),
            forall|k: int|
                0 <= k < old(self).workspaces@.len() && k != index ==> final(self).workspaces@[k]
                    == old(self).workspaces@[k],
    {
        let ghost before = self.workspaces@;
        let (name, mut entry) = self.workspaces.remove(index);
        entry.members = members;
        self.workspaces.insert(index, (name, entry));
        proof {
            let after = self.workspaces@;
            assert forall|k: int| 0 <= k < after.len() && k != index implies after[k] == before[k] by {
                if k < index {
                } else {
                }
            }
            assert forall|i: int, j: int| 0 <= i < j < after.len() implies crate::key_order::key_less(
                #[trigger] after[i].0@,
                #[trigger] after[j].0@,
            ) by {
                assert(after[i].0 == before[i].0);
                assert(after[j].0 == before[j].0);
            }
        }
    }

    /// Replaces the directory of the workspace at `index`.
    pub fn set_workspace_directory(&mut self, index: usize, directory: String)
        requires
            old(self).wf(),
            index < old(self).workspaces@.len(),
        ensures
            final(self).wf(),
            same_settings(*final(self), *old(self)),
            final(self).repos == old(self).repos,
            final(self).workspaces@.len() == old(self).workspaces@.len(),
            final(self).workspaces@[index as int].0 == old(self).workspaces@[index as int].0,
            final(self).workspaces@[index as int].1.directory@ == directory@,
            same_apart_from_directory(final(self).workspaces@[index as int].1, old(self).workspaces@[index as int].1),
            forall|k: int|
                0 <= k < old(self).workspaces@.len() && k != index ==> final(self).workspaces@[k]
                    == old(self).workspaces@[k],
    {
        let ghost before = self.workspaces@;
        let (name, mut entry) = self.workspaces.remove(index);
        entry.directory = directory;
        self.workspaces.insert(index, (name, entry));
        proof {
            let after = self.workspaces@;
            assert forall|k: int| 0 <= k < after.len() && k != index implies after[k] == before[k] by {
                if k < index {
                } else {
                }
            }
            assert forall|i: int, j: int| 0 <= i < j < after.len() implies crate::key_order::key_less(
                #[trigger] after[i].0@,
                #[trigger] after[j].0@,
            ) by {
                assert(after[i].0 == before[i].0);
                assert(after[j].0 == before[j].0);
            }
        }
    }

    /// Replaces the repository entry at `index`, keeping its key.
    pub fn set_repo_entry(&mut self, index: usize, entry: RepoEntry)
        requires
            old(self).wf(),
            index < old(self).repos@.len(),
            keys_sorted(entry.commands@),
        ensures
            final(self).wf(),
            same_settings(*final(self), *old(self)),
            final(self).workspaces == old(self).workspaces,
            final(self).commands == old(self).commands,
            final(self).repos@ == old(self).repos@.update(
                index as int,
                (old(self).repos@[index as int].0, entry),
            ),
    {
        let ghost before = self.repos@;
        let (key, _previous) = self.repos.remove(index);
        self.repos.insert(index, (key, entry));
        proof {
            let after = self.repos@;
            assert(after =~= before.update(index as int, (before[index as int].0, entry)));
            assert forall|i: int, j: int| 0 <= i < j < after.len() implies crate::key_order::key_less(
                #[trigger] after[i].0@,
                #[trigger] after[j].0@,
            ) by {
                assert(after[i].0 == before[i].0);
                assert(after[j].0 == before[j].0);
            }
            assert forall|k: int| 0 <= k < after.len() implies keys_sorted(
                #[trigger] after[k].1.commands@,
            ) by {
                if k != index {
                    assert(after[k] == before[k]);
                }
            }
        }
    }
}

/// Whether the keys of a keyed vector strictly increase.
pub fn entries_sorted<X>(entries: &Vec<(String, X)>) -> (sorted: bool)
    ensures
        sorted == keys_sorted(entries@),
{
    if entries.len() == 0 {
        return true;
    }
    let mut index: usize = 1;
    while index < entries.len()
        invariant
            1 <= index <= entries@.len(),
            forall|i: int, j: int|
                0 <= i < j < index ==> crate::key_order::key_less(
                    #[trigger] entries@[i].0@,
                    #[trigger] entries@[j].0@,
                ),
        decreases entries@.len() - index,
    {
        match compare_keys(entries[index - 1].0.as_str(), entries[index].0.as_str()) {
            KeyOrder::Before => {
                proof {
                    assert forall|i: int, j: int| 0 <= i < j < index + 1 implies crate::key_order::key_less(
                        #[trigger] entries@[i].0@,
                        #[trigger] entries@[j].0@,
                    ) by {
                        if j == index && i < index - 1 {
                            crate::key_order::lemma_key_less_transitive(
                                entries@[i].0@,
                                entries@[index - 1].0@,
                                entries@[j].0@,
                            );
                        }
                    }
                }
            },
            _ => {
                return false;
            },
        }
        index = index + 1;
    }
    true
}

// ---------------------------------------------------------------------
// Laws of the registry
// ---------------------------------------------------------------------

/// What is registered can be looked up: once `entry` is stored under
/// `alias`, looking `alias` up finds that very entry.
pub proof fn lemma_added_repo_is_found(repos: Seq<(String, RepoEntry)>, position: int, alias: String, entry: RepoEntry)
    requires
        0 <= position <= repos.len(),
        keys_sorted(repos.insert(position, (alias, entry))),
    ensures
        repo_lookup(repos.insert(position, (alias, entry)), alias@) == Some(position),
        repos.insert(position, (alias, entry))[position].1 == entry,
{
    let after = repos.insert(position, (alias, entry));
    crate::key_order::lemma_sorted_key_position(after, position);
}

/// A registered workspace can be looked up by its name.
pub proof fn lemma_added_workspace_is_found(
    workspaces: Seq<(String, WorkspaceEntry)>,
    position: int,
    name: String,
    entry: WorkspaceEntry,
)
    requires
        0 <= position <= workspaces.len(),
        keys_sorted(workspaces.insert(position, (name, entry))),
    ensures
        key_position(workspaces.insert(position, (name, entry)), name@) == Some(position),
        workspace_lookup(workspaces.insert(position, (name, entry)), name@) == Some(position),
{
    let after = workspaces.insert(position, (name, entry));
    crate::key_order::lemma_sorted_key_position(after, position);
}

/// Adding under a key that is free leaves every other key where it was
/// found: lookups by key of other names give the same entries.
pub proof fn lemma_add_keeps_other_keys(repos: Seq<(String, RepoEntry)>, position: int, alias: String, entry: RepoEntry, other: Seq<char>)
    requires
        0 <= position <= repos.len(),
        keys_sorted(repos),
        keys_sorted(repos.insert(position, (alias, entry))),
        other != alias@,
    ensures
        key_position(repos, other) is Some <==> key_position(repos.insert(position, (alias, entry)), other) is Some,
        key_position(repos, other) matches Some(i) ==> repos.insert(position, (alias, entry))[
            key_position(repos.insert(position, (alias, entry)), other)->0].1 == repos[i].1,
{
    let after = repos.insert(position, (alias, entry));
    if let Some(i) = key_position(repos, other) {
        let j = if i < position { i } else { i + 1 };
        assert(after[j] == repos[i]);
        crate::key_order::lemma_sorted_key_position(after, j);
        crate::key_order::lemma_sorted_key_position(repos, i);
    }
    if let Some(j) = key_position(after, other) {
        assert(j != position);
        let i = if j < position { j } else { j - 1 };
        assert(repos[i] == after[j]);
        crate::key_order::lemma_sorted_key_position(repos, i);
    }
}

/// A removed key can no longer be found, and what remains is still
/// sorted.
pub proof fn lemma_removed_key_is_gone(repos: Seq<(String, RepoEntry)>, index: int)
    requires
        keys_sorted(repos),
        0 <= index < repos.len(),
    ensures
        key_position(repos.remove(index), repos[index].0@) is None,
        keys_sorted(repos.remove(index)),
{
    let after = repos.remove(index);
    let key = repos[index].0@;
    assert forall|i: int, j: int| 0 <= i < j < after.len() implies crate::key_order::key_less(
        #[trigger] after[i].0@,
        #[trigger] after[j].0@,
    ) by {
        let a = if i < index { i } else { i + 1 };
        let b = if j < index { j } else { j + 1 };
        assert(after[i] == repos[a]);
        assert(after[j] == repos[b]);
    }
    if let Some(j) = key_position(after, key) {
        let i = if j < index { j } else { j + 1 };
        assert(repos[i] == after[j]);
        if i < index {
            assert(crate::key_order::key_less(repos[i].0@, repos[index].0@));
        } else {
            assert(crate::key_order::key_less(repos[index].0@, repos[i].0@));
        }
        crate::key_order::lemma_key_less_irreflexive(key);
    }
}

/// Removing what was just added restores the registry: the only entry
/// under the key (a repository's alias or a workspace's name) is the added
/// one, and taking it out leaves the entries as they were.
pub proof fn lemma_remove_undoes_add<X>(
    entries: Seq<(String, X)>,
    position: int,
    key: String,
    value: X,
    removed_index: int,
)
    requires
        0 <= position <= entries.len(),
        keys_sorted(entries.insert(position, (key, value))),
        0 <= removed_index <= entries.len(),
        entries.insert(position, (key, value))[removed_index].0@ == key@,
    ensures
        removed_index == position,
        entries.insert(position, (key, value)).remove(removed_index) == entries,
{
    let after = entries.insert(position, (key, value));
    crate::key_order::lemma_sorted_key_position(after, position);
    crate::key_order::lemma_sorted_key_position(after, removed_index);
    assert(after.remove(position) =~= entries);
}

} // verus!
