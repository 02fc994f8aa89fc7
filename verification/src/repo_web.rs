//! The browser address of a repository: its git remote, SSH forms
//! rewritten to HTTPS and a trailing `.git` dropped.

use vstd::prelude::*;
use crate::config::{ReportalConfig, TagFilter};
use crate::error::ReportalError;
use crate::prompt_identity::title_label;
use crate::repo_selection::{repo_choice, select_repo, RepoChoice, SelectedRepoParams};
use crate::terminal_identity_emit::{
    color_action_for, emit_repo_terminal_identity, TerminalIdentity, TerminalIdentityEmitParams,
};
use crate::paths::{extension, extension_of, lemma_extension_length};
use crate::text::{
    chars_equal_ignoring_ascii_case, chars_of, equal_ignoring_ascii_case, has_prefix,
    slice_chars, starts_with_str, string_of, trim, trimmed,
};

verus! {

/// Index of the first `c` in `s`, or `-1`.
pub open spec fn first_index_of(s: Seq<char>, c: char) -> int
    decreases s.len(),
{
    if s.len() == 0 {
        -1
    } else if s[0] == c {
        0
    } else if first_index_of(s.drop_first(), c) < 0 {
        -1
    } else {
        first_index_of(s.drop_first(), c) + 1
    }
}

/// `s` with its first `from` replaced by `to`.
pub open spec fn replace_first(s: Seq<char>, from: char, to: char) -> Seq<char> {
    let at = first_index_of(s, from);
    if at < 0 {
        s
    } else {
        s.update(at, to)
    }
}

/// What follows the first `c` in `s`, or all of `s` when it has none.
pub open spec fn after_first(s: Seq<char>, c: char) -> Seq<char> {
    let at = first_index_of(s, c);
    if at < 0 {
        s
    } else {
        s.skip(at + 1)
    }
}

/// `https://`.
pub open spec fn https_scheme() -> Seq<char> {
    seq!['h', 't', 't', 'p', 's', ':', '/', '/']
}

/// The remote rewritten to HTTPS: `git@host:path` becomes
/// `https://host/path`, `ssh://user@host/path` becomes
/// `https://host/path`, and anything else is kept.
pub open spec fn https_form(remote: Seq<char>) -> Seq<char> {
    if has_prefix(remote, seq!['g', 'i', 't', '@']) {
        https_scheme() + replace_first(remote.skip(4), ':', '/')
    } else if has_prefix(remote, seq!['s', 's', 'h', ':', '/', '/']) {
        https_scheme() + after_first(remote.skip(6), '@')
    } else {
        remote
    }
}

/// The browser address: the HTTPS form without its last four characters
/// when its path extension is `git` in any ASCII case.
pub open spec fn browser_url(remote: Seq<char>) -> Seq<char> {
    let address = https_form(remote);
    match extension(address) {
        Some(ext) => if equal_ignoring_ascii_case(ext, seq!['g', 'i', 't']) {
            address.take(address.len() - 4)
        } else {
            address
        },
        None => address,
    }
}

/// The path of `address` ends in a `.git` extension, in any ASCII case.
pub open spec fn has_git_extension(address: Seq<char>) -> bool {
    match extension(address) {
        Some(ext) => equal_ignoring_ascii_case(ext, seq!['g', 'i', 't']),
        None => false,
    }
}

/// A browser address converts to itself: converting the result of a
/// conversion again changes nothing, unless that result still has a
/// `.git` extension (as the result for `x.git.git` has).
pub proof fn lemma_browser_url_is_stable(remote: Seq<char>)
    requires
        !has_git_extension(browser_url(remote)),
    ensures
        browser_url(browser_url(remote)) == browser_url(remote),
{
    let address = https_form(remote);
    let once = browser_url(remote);
    let git_user = seq!['g', 'i', 't', '@'];
    let ssh_scheme = seq!['s', 's', 'h', ':', '/', '/'];
    lemma_extension_length(address);
    assert(once.len() >= 1 ==> once[0] == address[0]);
    assert(once == address || once == address.take(address.len() - 4));
    if has_prefix(remote, git_user) || has_prefix(remote, ssh_scheme) {
        assert(address[0] == 'h');
        assert(once.len() >= 1);
        assert(!has_prefix(once, git_user)) by {
            if has_prefix(once, git_user) {
                assert(once.subrange(0, 4)[0] == once[0]);
            }
        }
        assert(!has_prefix(once, ssh_scheme)) by {
            if has_prefix(once, ssh_scheme) {
                assert(once.subrange(0, 6)[0] == once[0]);
            }
        }
    } else {
        assert(address == remote);
        assert(!has_prefix(once, git_user)) by {
            if has_prefix(once, git_user) {
                assert(remote.subrange(0, 4) =~= once.subrange(0, 4));
            }
        }
        assert(!has_prefix(once, ssh_scheme)) by {
            if has_prefix(once, ssh_scheme) {
                assert(remote.subrange(0, 6) =~= once.subrange(0, 6));
            }
        }
    }
    assert(https_form(once) == once);
}

fn first_index(s: &Vec<char>, c: char) -> (at: Option<usize>)
    ensures
        at is None <==> first_index_of(s@, c) < 0,
        at matches Some(i) ==> i as int == first_index_of(s@, c) && i < s@.len(),
{
    let mut index: usize = 0;
    assert(s@.skip(0) =~= s@);
    proof {
        lemma_first_index_bounds(s@, c);
    }
    while index < s.len()
        invariant
            index <= s@.len(),
            -1 <= first_index_of(s@.skip(index as int), c),
            first_index_of(s@, c) == if first_index_of(s@.skip(index as int), c) < 0 {
                -1
            } else {
                first_index_of(s@.skip(index as int), c) + index
            },
        decreases s@.len() - index,
    {
        let ghost rest = s@.skip(index as int);
        assert(rest.drop_first() =~= s@.skip(index + 1));
        proof {
            lemma_first_index_bounds(s@.skip(index + 1), c);
        }
        if s[index] == c {
            return Some(index);
        }
        index = index + 1;
    }
    assert(s@.skip(index as int).len() == 0);
    None
}

proof fn lemma_first_index_bounds(s: Seq<char>, c: char)
    ensures
        -1 <= first_index_of(s, c) < s.len(),
        first_index_of(s, c) >= 0 ==> s[first_index_of(s, c)] == c,
    decreases s.len(),
{
    if s.len() > 0 && s[0] != c {
        lemma_first_index_bounds(s.drop_first(), c);
    }
}

/// Rewrites a git remote (SSH or HTTPS) into the address a browser opens.
pub fn remote_url_to_browser_url(remote_url: &str) -> (browser: String)
    ensures
        browser@ == browser_url(remote_url@),
{
    proof {
        reveal_strlit("git@");
        reveal_strlit("ssh://");
        reveal_strlit("https://");
    }
    let remote = chars_of(remote_url);
    let mut address: Vec<char> = Vec::new();
    assert("git@"@ =~= seq!['g', 'i', 't', '@']);
    assert("ssh://"@ =~= seq!['s', 's', 'h', ':', '/', '/']);
    assert("https://"@ =~= https_scheme());
    if starts_with_str(remote.as_slice(), "git@") {
        crate::text::extend_str(&mut address, "https://");
        let mut rest = slice_chars(remote.as_slice(), 4, remote.len());
        assert(rest@ =~= remote_url@.skip(4));
        let ghost original = rest@;
        match first_index(&rest, ':') {
            Some(at) => {
                rest.set(at, '/');
            },
            None => {},
        }
        assert(rest@ =~= replace_first(original, ':', '/'));
        crate::text::extend_chars(&mut address, rest.as_slice());
    } else if starts_with_str(remote.as_slice(), "ssh://") {
        crate::text::extend_str(&mut address, "https://");
        let rest = slice_chars(remote.as_slice(), 6, remote.len());
        assert(rest@ =~= remote_url@.skip(6));
        match first_index(&rest, '@') {
            Some(at) => {
                let after = slice_chars(rest.as_slice(), at + 1, rest.len());
                assert(after@ =~= after_first(rest@, '@'));
                crate::text::extend_chars(&mut address, after.as_slice());
            },
            None => {
                crate::text::extend_chars(&mut address, rest.as_slice());
            },
        }
    } else {
        crate::text::extend_chars(&mut address, remote.as_slice());
    }
    assert(address@ =~= https_form(remote_url@));
    let git = ['g', 'i', 't'];
    assert(git@ =~= seq!['g', 'i', 't']);
    proof {
        lemma_extension_length(address@);
    }
    match extension_of(address.as_slice()) {
        Some(ext) => {
            if chars_equal_ignoring_ascii_case(ext.as_slice(), &git) {
                let kept = slice_chars(address.as_slice(), 0, address.len() - 4);
                assert(kept@ =~= address@.take(address@.len() - 4));
                return string_of(kept.as_slice());
            }
        },
        None => {},
    }
    string_of(address.as_slice())
}

/// Where a repository's remote address comes from.
pub enum RemoteResolution {
    /// A remote address was found.
    Resolved(String),
    /// No remote address is known.
    NotFound,
}

/// Reads the output of `git remote get-url origin`: the trimmed text when
/// the command succeeded and printed something, else nothing.
pub fn remote_from_git_output(succeeded: bool, standard_output: &str) -> (resolution:
    RemoteResolution)
    ensures
        match resolution {
            RemoteResolution::Resolved(url) => succeeded && trim(standard_output@).len() > 0
                && url@ == trim(standard_output@),
            RemoteResolution::NotFound => !succeeded || trim(standard_output@).len() == 0,
        },
{
    if !succeeded {
        return RemoteResolution::NotFound;
    }
    let text = chars_of(standard_output);
    let cleaned = trimmed(text.as_slice());
    if cleaned.len() == 0 {
        RemoteResolution::NotFound
    } else {
        RemoteResolution::Resolved(string_of(cleaned.as_slice()))
    }
}

/// The address to open for a repository: its configured remote when set,
/// else the detected one; with neither, `NoRemoteUrl`. The detected
/// remote is consulted only when none is configured.
pub fn browser_target_url(selected_alias: &str, configured_remote: &str, detected: RemoteResolution)
    -> (target: Result<String, ReportalError>)
    ensures
        configured_remote@.len() > 0 ==> (target matches Ok(url) && url@ == browser_url(
            configured_remote@,
        )),
        configured_remote@.len() == 0 ==> match detected {
            RemoteResolution::Resolved(found) => target matches Ok(url) && url@ == browser_url(
                found@,
            ),
            RemoteResolution::NotFound => target matches Err(error) && (error matches ReportalError::NoRemoteUrl {
                alias,
            } && alias@ == selected_alias@),
        },
{
    if !configured_remote.is_empty() {
        return Ok(remote_url_to_browser_url(configured_remote));
    }
    match detected {
        RemoteResolution::Resolved(found) => Ok(remote_url_to_browser_url(found.as_str())),
        RemoteResolution::NotFound => Err(ReportalError::NoRemoteUrl { alias: selected_alias.to_owned() }),
    }
}

/// What the web command was asked.
pub struct WebCommandParams<'a> {
    /// Which repositories the menu shows.
    pub tag_filter: TagFilter,
    /// A repository to open directly; empty for the menu.
    pub direct_alias: &'a str,
}

/// What to open in the browser, and the terminal identity to apply first.
pub struct WebPlan {
    pub identity: TerminalIdentity,
    pub browser_url: String,
}

/// What `rep web` opens for the chosen repository (see [`select_repo`]):
/// the browser address of its configured remote, or, when none is
/// configured, of the remote detected in its directory (`detected`,
/// consulted only then); with neither, `NoRemoteUrl`.
pub fn run_web(
    web_params: &WebCommandParams<'_>,
    loaded_config: &ReportalConfig,
    chosen_index: Option<usize>,
    detected: RemoteResolution,
) -> (plan: Result<WebPlan, ReportalError>)
    requires
        loaded_config.wf(),
    ensures
        match repo_choice(loaded_config.repos@, web_params.direct_alias@, web_params.tag_filter, chosen_index) {
            RepoChoice::Found(index, alias) => {
                let repo = loaded_config.repos@[index].1;
                &&& plan is Ok ==> (plan matches Ok(web) && web.identity.resolved_title@ == title_label(repo.title, alias)
                    && color_action_for(web.identity.tab_color_action, repo.color))
                &&& if repo.remote@.len() > 0 {
                    plan matches Ok(web) && web.browser_url@ == browser_url(repo.remote@)
                } else {
                    match detected {
                        RemoteResolution::Resolved(found) => plan matches Ok(web) && web.browser_url@ == browser_url(
                            found@,
                        ),
                        RemoteResolution::NotFound => plan matches Err(ReportalError::NoRemoteUrl { alias: named })
                            && named@ == alias,
                    }
                }
            },
            RepoChoice::NotFound => plan matches Err(ReportalError::RepoNotFound { alias }) && alias@
                == web_params.direct_alias@,
            RepoChoice::NoneMatch => plan matches Err(ReportalError::NoReposMatchFilter),
            RepoChoice::Cancelled => plan matches Err(ReportalError::SelectionCancelled),
        },
{
    let selection_params = SelectedRepoParams {
        loaded_config,
        direct_alias: web_params.direct_alias,
        tag_filter: &web_params.tag_filter,
        prompt_label: "Open in browser",
    };
    let selected = match select_repo(&selection_params, chosen_index) {
        Ok(selected) => selected,
        Err(error) => {
            return Err(error);
        },
    };
    proof {
        reveal_strlit("");
    }
    let identity = emit_repo_terminal_identity(
        TerminalIdentityEmitParams {
            selected_alias: selected.repo_alias(),
            selected_repo: selected.repo_config(),
            title_override: "",
        },
    );
    match browser_target_url(selected.repo_alias(), selected.repo_config().remote.as_str(), detected) {
        Ok(url) => Ok(WebPlan { identity, browser_url: url }),
        Err(error) => Err(error),
    }
}

} // verus!
