//! Choosing a repository: directly by key or alias, or from a menu of the
//! repositories that pass a tag filter, ordered by first tag and then by
//! alias so that repositories sharing a tag stand together.

use vstd::prelude::*;
use crate::config::{passes_tag_filter, repo_lookup, RepoEntry, ReportalConfig, TagFilter};
use crate::error::{is_repo_not_found, ReportalError};
use crate::key_order::{
    compare_keys, key_less, keys_sorted, lemma_key_less_asymmetric, lemma_key_less_irreflexive,
    lemma_key_less_total, lemma_key_less_transitive, KeyOrder,
};
use crate::text::{extend_str, join, join_strings, string_of, string_views};

verus! {

/// The first tag of a repository, if it has one.
pub open spec fn first_tag(entry: RepoEntry) -> Option<Seq<char>> {
    if entry.tags@.len() > 0 {
        Some(entry.tags@[0]@)
    } else {
        None
    }
}

/// Order of optional first tags: no tag first, then tags in key order.
pub open spec fn tag_before(a: Option<Seq<char>>, b: Option<Seq<char>>) -> bool {
    match (a, b) {
        (None, Some(_)) => true,
        (Some(x), Some(y)) => key_less(x, y),
        _ => false,
    }
}

/// Repository `p` comes strictly before repository `q` in the menu: by
/// first tag, and by key where the first tags agree.
pub open spec fn menu_before(repos: Seq<(String, RepoEntry)>, p: int, q: int) -> bool {
    ||| tag_before(first_tag(repos[p].1), first_tag(repos[q].1))
    ||| (first_tag(repos[p].1) == first_tag(repos[q].1) && key_less(repos[p].0@, repos[q].0@))
}

/// `order` lists exactly the positions of the repositories that pass the
/// filter, each once, in menu order.
pub open spec fn is_repo_menu_order(
    repos: Seq<(String, RepoEntry)>,
    filter: TagFilter,
    order: Seq<usize>,
) -> bool {
    &&& forall|i: int|
        0 <= i < order.len() ==> (#[trigger] order[i]) < repos.len() && passes_tag_filter(
            repos[order[i] as int].1,
            filter,
        )
    &&& forall|p: int|
        0 <= p < repos.len() && passes_tag_filter(#[trigger] repos[p].1, filter) ==> exists|i: int|
            0 <= i < order.len() && order[i] == p
    &&& forall|i: int, j: int|
        0 <= i < j < order.len() ==> menu_before(repos, #[trigger] order[i] as int, #[trigger] order[j] as int)
}

/// A repository's menu label, the text after its color swatch: the key,
/// its aliases in parentheses, its description after a dash, and its tags
/// in brackets.
pub open spec fn repo_menu_label(alias: Seq<char>, entry: RepoEntry) -> Seq<char> {
    alias + (if entry.aliases@.len() > 0 {
        " ("@ + join(string_views(entry.aliases@), ", "@) + ")"@
    } else {
        Seq::empty()
    }) + (if entry.description@.len() > 0 {
        " — "@ + entry.description@
    } else {
        Seq::empty()
    }) + (if entry.tags@.len() > 0 {
        " ["@ + join(string_views(entry.tags@), ", "@) + "]"@
    } else {
        Seq::empty()
    })
}

proof fn lemma_tag_before_irreflexive(a: Option<Seq<char>>)
    ensures
        !tag_before(a, a),
{
    if let Some(x) = a {
        lemma_key_less_irreflexive(x);
    }
}

proof fn lemma_tag_before_asymmetric(a: Option<Seq<char>>, b: Option<Seq<char>>)
    requires
        tag_before(a, b),
    ensures
        !tag_before(b, a),
{
    if let (Some(x), Some(y)) = (a, b) {
        lemma_key_less_asymmetric(x, y);
    }
}

proof fn lemma_tag_before_transitive(a: Option<Seq<char>>, b: Option<Seq<char>>, c: Option<Seq<char>>)
    requires
        tag_before(a, b),
        tag_before(b, c),
    ensures
        tag_before(a, c),
{
    if let (Some(x), Some(y), Some(z)) = (a, b, c) {
        lemma_key_less_transitive(x, y, z);
    }
}

proof fn lemma_tag_before_total(a: Option<Seq<char>>, b: Option<Seq<char>>)
    requires
        a != b,
    ensures
        tag_before(a, b) || tag_before(b, a),
{
    if let (Some(x), Some(y)) = (a, b) {
        lemma_key_less_total(x, y);
    }
}

/// No repository comes before itself.
proof fn lemma_menu_before_irreflexive(repos: Seq<(String, RepoEntry)>, p: int)
    ensures
        !menu_before(repos, p, p),
{
    lemma_tag_before_irreflexive(first_tag(repos[p].1));
    lemma_key_less_irreflexive(repos[p].0@);
}

proof fn lemma_menu_before_asymmetric(repos: Seq<(String, RepoEntry)>, p: int, q: int)
    requires
        menu_before(repos, p, q),
    ensures
        !menu_before(repos, q, p),
{
    let (tp, tq) = (first_tag(repos[p].1), first_tag(repos[q].1));
    if tag_before(tp, tq) {
        lemma_tag_before_asymmetric(tp, tq);
        if tp == tq {
            lemma_tag_before_irreflexive(tp);
        }
    } else {
        lemma_key_less_asymmetric(repos[p].0@, repos[q].0@);
        lemma_tag_before_irreflexive(tp);
    }
}

proof fn lemma_menu_before_transitive(repos: Seq<(String, RepoEntry)>, p: int, q: int, r: int)
    requires
        menu_before(repos, p, q),
        menu_before(repos, q, r),
    ensures
        menu_before(repos, p, r),
{
    let (tp, tq, tr) = (first_tag(repos[p].1), first_tag(repos[q].1), first_tag(repos[r].1));
    if tag_before(tp, tq) && tag_before(tq, tr) {
        lemma_tag_before_transitive(tp, tq, tr);
    } else if tp == tq && tq == tr {
        lemma_key_less_transitive(repos[p].0@, repos[q].0@, repos[r].0@);
    }
}

/// Two different positions of a sorted registry are ordered one way or
/// the other.
proof fn lemma_menu_before_total(repos: Seq<(String, RepoEntry)>, p: int, q: int)
    requires
        keys_sorted(repos),
        0 <= p < repos.len(),
        0 <= q < repos.len(),
        p != q,
    ensures
        menu_before(repos, p, q) || menu_before(repos, q, p),
{
    let (tp, tq) = (first_tag(repos[p].1), first_tag(repos[q].1));
    if tp != tq {
        lemma_tag_before_total(tp, tq);
    } else if p < q {
        assert(key_less(repos[p].0@, repos[q].0@));
    } else {
        assert(key_less(repos[q].0@, repos[p].0@));
    }
}

/// The menu order is fully determined: any two sequences that list the
/// repositories passing a filter, each once, sorted by first tag and then
/// by key, are the same sequence.
pub proof fn lemma_repo_menu_order_unique(
    repos: Seq<(String, RepoEntry)>,
    filter: TagFilter,
    first: Seq<usize>,
    second: Seq<usize>,
)
    requires
        is_repo_menu_order(repos, filter, first),
        is_repo_menu_order(repos, filter, second),
    ensures
        first == second,
{
    lemma_sorted_same_members_equal(repos, first, second);
}

/// Strictly sorted sequences with the same members are equal.
proof fn lemma_sorted_same_members_equal(repos: Seq<(String, RepoEntry)>, first: Seq<usize>, second: Seq<usize>)
    requires
        forall|i: int, j: int|
            0 <= i < j < first.len() ==> menu_before(repos, #[trigger] first[i] as int, #[trigger] first[j] as int),
        forall|i: int, j: int|
            0 <= i < j < second.len() ==> menu_before(repos, #[trigger] second[i] as int, #[trigger] second[j] as int),
        forall|x: usize| first.contains(x) <==> second.contains(x),
    ensures
        first == second,
    decreases first.len(),
{
    if first.len() == 0 {
        if second.len() > 0 {
            assert(second.contains(second[0]));
        }
        assert(first =~= second);
    } else {
        assert(first.contains(first[0]));
        let j = choose|j: int| 0 <= j < second.len() && second[j] == first[0];
        assert(second.contains(second[0]));
        let i = choose|i: int| 0 <= i < first.len() && first[i] == second[0];
        if first[0] != second[0] {
            assert(j > 0 && i > 0);
            assert(menu_before(repos, second[0] as int, second[j] as int));
            assert(menu_before(repos, first[0] as int, first[i] as int));
            lemma_menu_before_asymmetric(repos, first[0] as int, second[0] as int);
        }
        let rest_first = first.skip(1);
        let rest_second = second.skip(1);
        assert forall|x: usize| rest_first.contains(x) implies rest_second.contains(x) by {
            let k = choose|k: int| 0 <= k < rest_first.len() && rest_first[k] == x;
            assert(first[k + 1] == x);
            assert(menu_before(repos, first[0] as int, first[k + 1] as int));
            lemma_menu_before_irreflexive(repos, x as int);
            assert(first.contains(x));
            let m = choose|m: int| 0 <= m < second.len() && second[m] == x;
            assert(m != 0);
            assert(rest_second[m - 1] == x);
        }
        assert forall|x: usize| rest_second.contains(x) implies rest_first.contains(x) by {
            let k = choose|k: int| 0 <= k < rest_second.len() && rest_second[k] == x;
            assert(second[k + 1] == x);
            assert(menu_before(repos, second[0] as int, second[k + 1] as int));
            lemma_menu_before_irreflexive(repos, x as int);
            assert(second.contains(x));
            let m = choose|m: int| 0 <= m < first.len() && first[m] == x;
            assert(m != 0);
            assert(rest_first[m - 1] == x);
        }
        assert forall|a: int, b: int| 0 <= a < b < rest_first.len() implies menu_before(
            repos,
            #[trigger] rest_first[a] as int,
            #[trigger] rest_first[b] as int,
        ) by {
            assert(rest_first[a] == first[a + 1] && rest_first[b] == first[b + 1]);
        }
        assert forall|a: int, b: int| 0 <= a < b < rest_second.len() implies menu_before(
            repos,
            #[trigger] rest_second[a] as int,
            #[trigger] rest_second[b] as int,
        ) by {
            assert(rest_second[a] == second[a + 1] && rest_second[b] == second[b + 1]);
        }
        lemma_sorted_same_members_equal(repos, rest_first, rest_second);
        assert(first =~= seq![first[0]] + rest_first);
        assert(second =~= seq![second[0]] + rest_second);
    }
}

/// Whether a repository passes a tag filter.
pub fn passes_filter(entry: &RepoEntry, filter: &TagFilter) -> (passes: bool)
    ensures
        passes == passes_tag_filter(*entry, *filter),
{
    match filter {
        TagFilter::All => true,
        TagFilter::ByTag(tag) => tag.unicode_len() == 0 || entry.carries_tag(tag.as_str()),
    }
}

/// Whether repository `p` comes before repository `q` in the menu.
fn menu_precedes(repos: &Vec<(String, RepoEntry)>, p: usize, q: usize) -> (before: bool)
    requires
        p < repos@.len(),
        q < repos@.len(),
    ensures
        before == menu_before(repos@, p as int, q as int),
{
    let entry_p = &repos[p].1;
    let entry_q = &repos[q].1;
    let tags_order = if entry_p.tags.len() > 0 {
        if entry_q.tags.len() > 0 {
            compare_keys(entry_p.tags[0].as_str(), entry_q.tags[0].as_str())
        } else {
            KeyOrder::After
        }
    } else if entry_q.tags.len() > 0 {
        KeyOrder::Before
    } else {
        KeyOrder::Same
    };
    proof {
        let (tp, tq) = (first_tag(repos@[p as int].1), first_tag(repos@[q as int].1));
        if tp is Some && tq is Some {
            assert(tp == tq <==> tp->0 == tq->0);
        }
        lemma_tag_before_irreflexive(tp);
        if tag_before(tp, tq) {
            lemma_tag_before_asymmetric(tp, tq);
        }
    }
    match tags_order {
        KeyOrder::Before => true,
        KeyOrder::After => false,
        KeyOrder::Same => match compare_keys(repos[p].0.as_str(), repos[q].0.as_str()) {
            KeyOrder::Before => true,
            _ => false,
        },
    }
}

/// Positions of the repositories that pass the filter, in menu order.
pub fn repo_menu_order(loaded_config: &ReportalConfig, tag_filter: &TagFilter) -> (order: Vec<usize>)
    requires
        loaded_config.wf(),
    ensures
        is_repo_menu_order(loaded_config.repos@, *tag_filter, order@),
{
    let repos = &loaded_config.repos;
    let mut order: Vec<usize> = Vec::new();
    let mut index: usize = 0;
    while index < repos.len()
        invariant
            keys_sorted(repos@),
            index <= repos@.len(),
            forall|i: int|
                0 <= i < order@.len() ==> (#[trigger] order@[i]) < index && passes_tag_filter(
                    repos@[order@[i] as int].1,
                    *tag_filter,
                ),
            forall|p: int|
                0 <= p < index && passes_tag_filter(#[trigger] repos@[p].1, *tag_filter) ==> exists|i: int|
                    0 <= i < order@.len() && order@[i] == p,
            forall|i: int, j: int|
                0 <= i < j < order@.len() ==> menu_before(
                    repos@,
                    #[trigger] order@[i] as int,
                    #[trigger] order@[j] as int,
                ),
        decreases repos@.len() - index,
    {
        if passes_filter(&repos[index].1, tag_filter) {
            let mut k: usize = 0;
            while k < order.len() && !menu_precedes(repos, index, order[k])
                invariant
                    keys_sorted(repos@),
                    index < repos@.len(),
                    k <= order@.len(),
                    forall|i: int| 0 <= i < order@.len() ==> (#[trigger] order@[i]) < index,
                    forall|i: int| 0 <= i < k ==> menu_before(repos@, #[trigger] order@[i] as int, index as int),
                decreases order@.len() - k,
            {
                proof {
                    lemma_menu_before_total(repos@, index as int, order@[k as int] as int);
                }
                k = k + 1;
            }
            let ghost before = order@;
            order.insert(k, index);
            proof {
                assert(order@ == before.insert(k as int, index));
                assert forall|i: int, j: int| 0 <= i < j < order@.len() implies menu_before(
                    repos@,
                    #[trigger] order@[i] as int,
                    #[trigger] order@[j] as int,
                ) by {
                    if j < k {
                        assert(order@[i] == before[i] && order@[j] == before[j]);
                    } else if j == k {
                        assert(order@[i] == before[i]);
                    } else if i < k {
                        assert(order@[i] == before[i] && order@[j] == before[j - 1]);
                    } else if i == k {
                        assert(order@[j] == before[j - 1]);
                        assert(k < before.len());
                        assert(menu_before(repos@, index as int, before[k as int] as int));
                        if j - 1 > k {
                            assert(menu_before(repos@, before[k as int] as int, before[j - 1] as int));
                            lemma_menu_before_transitive(
                                repos@,
                                index as int,
                                before[k as int] as int,
                                before[j - 1] as int,
                            );
                        }
                    } else {
                        assert(order@[i] == before[i - 1] && order@[j] == before[j - 1]);
                    }
                }
                assert forall|p: int|
                    0 <= p < index + 1 && passes_tag_filter(#[trigger] repos@[p].1, *tag_filter) implies exists|i: int|
                    0 <= i < order@.len() && order@[i] == p by {
                    if p == index {
                        assert(order@[k as int] == p);
                    } else {
                        let m = choose|m: int| 0 <= m < before.len() && before[m] == p;
                        if m < k {
                            assert(order@[m] == p);
                        } else {
                            assert(order@[m + 1] == p);
                        }
                    }
                }
                assert forall|i: int| 0 <= i < order@.len() implies (#[trigger] order@[i]) < index + 1
                    && passes_tag_filter(repos@[order@[i] as int].1, *tag_filter) by {
                    if i < k {
                        assert(order@[i] == before[i]);
                    } else if i > k {
                        assert(order@[i] == before[i - 1]);
                    }
                }
            }
        }
        index = index + 1;
    }
    order
}

/// The menu label of a repository (the text after its color swatch).
pub fn repo_label(repo_alias: &str, repo_entry: &RepoEntry) -> (label: String)
    ensures
        label@ == repo_menu_label(repo_alias@, *repo_entry),
{
    let mut text: Vec<char> = Vec::new();
    extend_str(&mut text, repo_alias);
    if repo_entry.aliases.len() > 0 {
        extend_str(&mut text, " (");
        let joined = join_strings(&repo_entry.aliases, ", ");
        extend_str(&mut text, joined.as_str());
        extend_str(&mut text, ")");
    }
    if !repo_entry.description.as_str().is_empty() {
        extend_str(&mut text, " — ");
        extend_str(&mut text, repo_entry.description.as_str());
    }
    if repo_entry.tags.len() > 0 {
        extend_str(&mut text, " [");
        let joined = join_strings(&repo_entry.tags, ", ");
        extend_str(&mut text, joined.as_str());
        extend_str(&mut text, "]");
    }
    string_of(text.as_slice())
}

/// The labels of the repositories at the given positions, in that order.
pub fn repo_menu_labels(loaded_config: &ReportalConfig, order: &Vec<usize>) -> (labels: Vec<String>)
    requires
        forall|i: int| 0 <= i < order@.len() ==> (#[trigger] order@[i]) < loaded_config.repos@.len(),
    ensures
        labels@.len() == order@.len(),
        forall|i: int|
            0 <= i < labels@.len() ==> (#[trigger] labels@[i])@ == repo_menu_label(
                loaded_config.repos@[order@[i] as int].0@,
                loaded_config.repos@[order@[i] as int].1,
            ),
{
    let mut labels: Vec<String> = Vec::new();
    let mut index: usize = 0;
    while index < order.len()
        invariant
            index <= order@.len(),
            labels@.len() == index,
            forall|i: int| 0 <= i < order@.len() ==> (#[trigger] order@[i]) < loaded_config.repos@.len(),
            forall|i: int|
                0 <= i < index ==> (#[trigger] labels@[i])@ == repo_menu_label(
                    loaded_config.repos@[order@[i] as int].0@,
                    loaded_config.repos@[order@[i] as int].1,
                ),
        decreases order@.len() - index,
    {
        let repo = &loaded_config.repos[order[index]];
        labels.push(repo_label(repo.0.as_str(), &repo.1));
        index = index + 1;
    }
    labels
}

/// A repository chosen by key, alias, or menu.
pub struct SelectedRepo<'a> {
    pub repo_alias: &'a str,
    pub repo_config: &'a RepoEntry,
}

impl<'a> SelectedRepo<'a> {
    /// The name the repository was chosen by: the direct alias as given,
    /// or the key of the menu row.
    pub fn repo_alias(&self) -> (alias: &'a str)
        ensures
            alias@ == self.repo_alias@,
    {
        self.repo_alias
    }

    /// The chosen repository's entry.
    pub fn repo_config(&self) -> (entry: &'a RepoEntry)
        ensures
            *entry == *self.repo_config,
    {
        self.repo_config
    }
}

/// What choosing a repository starts from.
pub struct SelectedRepoParams<'a> {
    /// The registry to choose from.
    pub loaded_config: &'a ReportalConfig,
    /// A key or alias to look up directly; empty to use the menu.
    pub direct_alias: &'a str,
    /// Which repositories the menu shows.
    pub tag_filter: &'a TagFilter,
    /// The menu's prompt.
    pub prompt_label: &'a str,
}

/// The menu order of the repositories that pass a filter (the one
/// sequence that [`is_repo_menu_order`] admits).
pub open spec fn repo_menu(repos: Seq<(String, RepoEntry)>, filter: TagFilter) -> Seq<usize> {
    choose|order: Seq<usize>| is_repo_menu_order(repos, filter, order)
}

/// What choosing a repository comes to.
pub enum RepoChoice {
    /// The repository at this position, under this name.
    Found(int, Seq<char>),
    /// No repository answers to the direct name.
    NotFound,
    /// The menu would be empty.
    NoneMatch,
    /// The menu was dismissed, or its answer is past the end.
    Cancelled,
}

/// The choice: with a direct name, the repository it looks up; otherwise
/// the menu row at `chosen_index`.
pub open spec fn repo_choice(
    repos: Seq<(String, RepoEntry)>,
    direct_alias: Seq<char>,
    filter: TagFilter,
    chosen_index: Option<usize>,
) -> RepoChoice {
    if direct_alias.len() > 0 {
        match repo_lookup(repos, direct_alias) {
            Some(index) => RepoChoice::Found(index, direct_alias),
            None => RepoChoice::NotFound,
        }
    } else {
        let order = repo_menu(repos, filter);
        if order.len() == 0 {
            RepoChoice::NoneMatch
        } else {
            match chosen_index {
                Some(row) if row < order.len() => RepoChoice::Found(
                    order[row as int] as int,
                    repos[order[row as int] as int].0@,
                ),
                _ => RepoChoice::Cancelled,
            }
        }
    }
}

/// A selection result carries out a choice.
pub open spec fn carries_out(
    selected: Result<SelectedRepo, ReportalError>,
    choice: RepoChoice,
    repos: Seq<(String, RepoEntry)>,
    direct_alias: Seq<char>,
) -> bool {
    match choice {
        RepoChoice::Found(index, alias) => selected matches Ok(chosen) && chosen.repo_alias@ == alias
            && *chosen.repo_config == repos[index].1,
        RepoChoice::NotFound => selected matches Err(error) && is_repo_not_found(error, direct_alias),
        RepoChoice::NoneMatch => selected matches Err(ReportalError::NoReposMatchFilter),
        RepoChoice::Cancelled => selected matches Err(ReportalError::SelectionCancelled),
    }
}

/// The repository chosen: with a direct alias, the one it looks up;
/// otherwise the menu row at `chosen_index`. An empty menu gives
/// `NoReposMatchFilter`; a dismissed menu or an index past its end cancels.
pub fn select_repo<'a>(selection_params: &'a SelectedRepoParams<'a>, chosen_index: Option<usize>) -> (selected:
    Result<SelectedRepo<'a>, ReportalError>)
    requires
        selection_params.loaded_config.wf(),
    ensures
        carries_out(
            selected,
            repo_choice(
                selection_params.loaded_config.repos@,
                selection_params.direct_alias@,
                *selection_params.tag_filter,
                chosen_index,
            ),
            selection_params.loaded_config.repos@,
            selection_params.direct_alias@,
        ),
        repo_choice(
            selection_params.loaded_config.repos@,
            selection_params.direct_alias@,
            *selection_params.tag_filter,
            chosen_index,
        ) matches RepoChoice::Found(index, _) ==> 0 <= index < selection_params.loaded_config.repos@.len(),
{
    let loaded_config = selection_params.loaded_config;
    if !selection_params.direct_alias.is_empty() {
        proof {
            crate::config::lemma_repo_lookup_bounds(loaded_config.repos@, selection_params.direct_alias@);
        }
        return match loaded_config.get_repo(selection_params.direct_alias) {
            Ok(found_repo) => Ok(SelectedRepo { repo_alias: selection_params.direct_alias, repo_config: found_repo }),
            Err(error) => Err(error),
        };
    }
    let order = repo_menu_order(loaded_config, selection_params.tag_filter);
    proof {
        let repos = loaded_config.repos@;
        let filter = *selection_params.tag_filter;
        assert(is_repo_menu_order(repos, filter, order@));
        lemma_repo_menu_order_unique(repos, filter, repo_menu(repos, filter), order@);
    }
    if order.len() == 0 {
        return Err(ReportalError::NoReposMatchFilter);
    }
    match chosen_index {
        Some(row) if row < order.len() => {
            let chosen = &loaded_config.repos[order[row]];
            Ok(SelectedRepo { repo_alias: chosen.0.as_str(), repo_config: &chosen.1 })
        },
        _ => Err(ReportalError::SelectionCancelled),
    }
}

} // verus!
