//! Which commit and compare links of a message get a diff reply.
//!
//! A message is answered only when every word in it is such a link or a
//! file name right after one; a file name between two links narrows the
//! first link's diff to that file.
use vstd::prelude::*;
use crate::text::{
    before_first, before_first_exec, contains, contains_str, drop_while_end, from_chars, split_whitespace,
    starts_with, starts_with_str, to_chars, vv, words,
};
use crate::git_diff::{CommitDiff, CommitView, commit_parse_spec, opt_view};
use crate::shared::{host_matches_blocked_spec, host_matches_blocked, views};
use crate::cache::{RateLimiter, rate_key, throttle_allows, RATE_LIMIT_SECONDS};

verus! {

pub open spec fn is_github_commit_url_spec(w: Seq<char>) -> bool {
    contains(w, "github.com"@) && (contains(w, "/commit/"@) || contains(w, "/compare/"@))
}

pub open spec fn is_gitlab_commit_url_spec(w: Seq<char>) -> bool {
    contains(w, "/-/commit/"@) || contains(w, "/-/compare/"@)
}

pub open spec fn is_commit_url_spec(w: Seq<char>) -> bool {
    is_github_commit_url_spec(w) || is_gitlab_commit_url_spec(w)
}

pub fn is_github_commit_url(word: &str) -> (r: bool)
    ensures
        r == is_github_commit_url_spec(word@),
{
    let w = to_chars(word);
    contains_str(w.as_slice(), "github.com") && (contains_str(w.as_slice(), "/commit/") || contains_str(
        w.as_slice(),
        "/compare/",
    ))
}

pub fn is_gitlab_commit_url(word: &str) -> (r: bool)
    ensures
        r == is_gitlab_commit_url_spec(word@),
{
    let w = to_chars(word);
    contains_str(w.as_slice(), "/-/commit/") || contains_str(w.as_slice(), "/-/compare/")
}

/// Whether a word looks like a GitHub or GitLab commit or compare link.
pub fn is_commit_url(word: &str) -> (r: bool)
    ensures
        r == is_commit_url_spec(word@),
{
    is_github_commit_url(word) || is_gitlab_commit_url(word)
}

pub open spec fn trailing_punct() -> spec_fn(char) -> bool {
    |c: char| c == ',' || c == ')' || c == ']' || c == '}' || c == ';'
}

/// A link as typed, without its query and without trailing `,)]};`.
pub open spec fn clean_url_spec(url: Seq<char>) -> Seq<char> {
    drop_while_end(before_first(url, "?"@), trailing_punct())
}

fn clean_url_chars(url: &[char]) -> (r: Vec<char>)
    ensures
        r@ == clean_url_spec(url@),
{
    let q = to_chars("?");
    let s = before_first_exec(url, q.as_slice());
    let mut b: usize = s.len();
    assert(s@.subrange(0, b as int) =~= s@);
    while b > 0 && (s[b - 1] == ',' || s[b - 1] == ')' || s[b - 1] == ']' || s[b - 1] == '}' || s[b
        - 1] == ';')
        invariant
            b <= s@.len(),
            s@ == before_first(url@, "?"@),
            drop_while_end(s@.subrange(0, b as int), trailing_punct()) == clean_url_spec(url@),
        decreases b,
    {
        assert(s@.subrange(0, b as int).drop_last() =~= s@.subrange(0, b - 1));
        b -= 1;
    }
    vstd::slice::slice_to_vec(vstd::slice::slice_subrange(s, 0, b))
}

/// `url` without its query and trailing punctuation (see `clean_url_spec`).
pub fn clean_url(url: &str) -> (r: String)
    ensures
        r@ == clean_url_spec(url@),
{
    let c = to_chars(url);
    let r = clean_url_chars(c.as_slice());
    from_chars(r.as_slice())
}

pub open spec fn looks_like_filename_spec(w: Seq<char>) -> bool {
    contains(w, "."@) && !starts_with(w, "http"@)
}

/// A word that names a file rather than a link: it has a dot and does not
/// start with `http`.
pub fn looks_like_filename(word: &[char]) -> (r: bool)
    ensures
        r == looks_like_filename_spec(word@),
{
    contains_str(word, ".") && !starts_with_str(word, "http")
}

pub open spec fn link_at(ws: Seq<Seq<char>>, i: int) -> bool {
    0 <= i < ws.len() && is_commit_url_spec(ws[i])
}

pub open spec fn has_link(ws: Seq<Seq<char>>) -> bool {
    exists|i: int| #[trigger] link_at(ws, i)
}

/// Every word is a link or a file name right after a link.
pub open spec fn only_links(ws: Seq<Seq<char>>) -> bool {
    forall|i: int|
        0 <= i < ws.len() ==> #[trigger] link_at(ws, i) || (link_at(ws, i - 1) && looks_like_filename_spec(
            ws[i],
        ))
}

/// The file filter for the link at `i`: the next word, when it names a
/// file and another link follows it.
pub open spec fn filter_after(ws: Seq<Seq<char>>, i: int) -> Option<Seq<char>> {
    if i + 2 < ws.len() && looks_like_filename_spec(ws[i + 1]) && link_at(ws, i + 2) {
        Some(ws[i + 1])
    } else {
        None
    }
}

pub open spec fn with_filter(c: CommitView, f: Option<Seq<char>>) -> CommitView {
    CommitView { file_filter: f, ..c }
}

/// The references read from the links among the first `n` words, in order.
pub open spec fn commits_from(ws: Seq<Seq<char>>, n: int) -> Seq<CommitView>
    decreases n,
{
    if n <= 0 {
        seq![]
    } else {
        let prev = commits_from(ws, n - 1);
        if link_at(ws, n - 1) {
            match commit_parse_spec(clean_url_spec(ws[n - 1])) {
                Some(c) => prev.push(with_filter(c, filter_after(ws, n - 1))),
                None => prev,
            }
        } else {
            prev
        }
    }
}

/// The host a reference is fetched from.
pub open spec fn commit_host(c: CommitView) -> Seq<char> {
    match c.host {
        Some(h) => h,
        None => "github.com"@,
    }
}

pub open spec fn host_blocked(host: Seq<char>, blocklist: Seq<Seq<char>>) -> bool {
    exists|j: int| 0 <= j < blocklist.len() && #[trigger] host_matches_blocked_spec(host, blocklist[j])
}

/// The references that may be answered: none on a blocked host, and no
/// compare view where compares are turned off.
pub open spec fn keep_commits(cs: Seq<CommitView>, blocklist: Seq<Seq<char>>, compares_enabled: bool) -> Seq<
    CommitView,
>
    decreases cs.len(),
{
    if cs.len() == 0 {
        seq![]
    } else {
        let rest = keep_commits(cs.drop_last(), blocklist, compares_enabled);
        let c = cs.last();
        if !host_blocked(commit_host(c), blocklist) && (compares_enabled || !c.is_compare) {
            rest.push(c)
        } else {
            rest
        }
    }
}

pub open spec fn commit_views(cs: Seq<CommitDiff>) -> Seq<CommitView> {
    cs.map_values(|c: CommitDiff| c.view())
}

fn any_link(ws: &Vec<Vec<char>>) -> (r: bool)
    ensures
        r == has_link(vv(ws@)),
{
    let mut i: usize = 0;
    while i < ws.len()
        invariant
            i <= ws@.len(),
            forall|j: int| 0 <= j < i ==> !#[trigger] link_at(vv(ws@), j),
        decreases ws@.len() - i,
    {
        let w = from_chars(ws[i].as_slice());
        if is_commit_url(w.as_str()) {
            assert(link_at(vv(ws@), i as int));
            return true;
        }
        i += 1;
    }
    false
}

fn link_exec(ws: &Vec<Vec<char>>, i: usize) -> (r: bool)
    ensures
        r == link_at(vv(ws@), i as int),
{
    if i < ws.len() {
        let w = from_chars(ws[i].as_slice());
        is_commit_url(w.as_str())
    } else {
        false
    }
}

fn all_links(ws: &Vec<Vec<char>>) -> (r: bool)
    ensures
        r == only_links(vv(ws@)),
{
    let ghost s = vv(ws@);
    let mut i: usize = 0;
    while i < ws.len()
        invariant
            i <= ws@.len(),
            s == vv(ws@),
            forall|j: int|
                0 <= j < i ==> #[trigger] link_at(s, j) || (link_at(s, j - 1) && looks_like_filename_spec(
                    s[j],
                )),
        decreases ws@.len() - i,
    {
        let ok = link_exec(ws, i) || (i > 0 && link_exec(ws, i - 1) && looks_like_filename(ws[i].as_slice()));
        if !ok {
            assert(!(link_at(s, i as int) || (link_at(s, i - 1) && looks_like_filename_spec(s[i as int]))));
            return false;
        }
        i += 1;
    }
    true
}

/// The references of a message's links (see `commits_from`).
fn commits_in(ws: &Vec<Vec<char>>) -> (r: Vec<CommitDiff>)
    ensures
        commit_views(r@) == commits_from(vv(ws@), ws@.len() as int),
{
    let ghost s = vv(ws@);
    let mut out: Vec<CommitDiff> = Vec::new();
    let mut i: usize = 0;
    while i < ws.len()
        invariant
            i <= ws@.len(),
            s == vv(ws@),
            commit_views(out@) == commits_from(s, i as int),
        decreases ws@.len() - i,
    {
        if link_exec(ws, i) {
            let w = from_chars(ws[i].as_slice());
            let cleaned = clean_url(w.as_str());
            match CommitDiff::parse(cleaned.as_str()) {
                Some(mut c) => {
                    let f = if ws.len() - i > 2 && looks_like_filename(ws[i + 1].as_slice()) && link_exec(
                        ws,
                        i + 2,
                    ) {
                        Some(from_chars(ws[i + 1].as_slice()))
                    } else {
                        None
                    };
                    assert(opt_view(f) == filter_after(s, i as int));
                    c.file_filter = f;
                    let ghost before = out@;
                    out.push(c);
                    assert(commit_views(out@) =~= commit_views(before).push(c.view()));
                },
                None => {},
            }
        }
        i += 1;
    }
    out
}

fn blocked_host(host: &str, blocklist: &[String]) -> (r: bool)
    ensures
        r == host_blocked(host@, views(blocklist@)),
{
    let mut j: usize = 0;
    while j < blocklist.len()
        invariant
            j <= blocklist@.len(),
            forall|k: int| 0 <= k < j ==> !#[trigger] host_matches_blocked_spec(host@, views(blocklist@)[k]),
        decreases blocklist@.len() - j,
    {
        if host_matches_blocked(host, blocklist[j].as_str()) {
            assert(host_matches_blocked_spec(host@, views(blocklist@)[j as int]));
            return true;
        }
        j += 1;
    }
    false
}

/// The references that are not on a blocked host and, when compares are
/// off, are no compare view (see `keep_commits`).
pub fn retain_allowed(cs: Vec<CommitDiff>, blocklist: &[String], compares_enabled: bool) -> (r: Vec<CommitDiff>)
    ensures
        commit_views(r@) == keep_commits(commit_views(cs@), views(blocklist@), compares_enabled),
{
    let ghost all = commit_views(cs@);
    let ghost n = cs@.len();
    let mut out: Vec<CommitDiff> = Vec::new();
    let mut rest = cs;
    while rest.len() > 0
        invariant
            rest@.len() <= n,
            all.len() == n,
            commit_views(rest@) == all.skip(n - rest@.len()),
            commit_views(out@) == keep_commits(all.take(n - rest@.len()), views(blocklist@), compares_enabled),
        decreases rest@.len(),
    {
        let ghost k = n - rest@.len();
        assert(commit_views(rest@)[0] == all[k]);
        let ghost old_rest = rest@;
        let c = rest.remove(0);
        assert(rest@ =~= old_rest.skip(1));
        assert(commit_views(rest@) =~= commit_views(old_rest).skip(1));
        assert(all.skip(k).skip(1) =~= all.skip(k + 1));
        assert(all.take(k + 1).drop_last() =~= all.take(k));
        let host: String = match &c.host {
            Some(h) => h.clone(),
            None => "github.com".to_string(),
        };
        assert(host@ == commit_host(c.view()));
        if !blocked_host(host.as_str(), blocklist) && (compares_enabled || !c.is_compare) {
            let ghost before = out@;
            out.push(c);
            assert(commit_views(out@) =~= commit_views(before).push(c.view()));
        }
    }
    assert(all.take(n as int) =~= all);
    out
}

/// The references a message's links ask to see, read the way the diff
/// handler reads them:
/// - nothing, and no use of the rate limit, without a commit link;
/// - nothing when the user is rate limited (the use is recorded when not);
/// - nothing unless every word is a link or a file name after one;
/// - otherwise the links' references, without those on a blocked host or,
///   when compares are off, those of compare views.
pub fn select_commit_diffs(
    content: &str,
    user_id: u64,
    now: u64,
    limiter: &mut RateLimiter,
    compares_enabled: bool,
    blocklist: &[String],
) -> (r: Vec<CommitDiff>)
    requires
        old(limiter).wf(),
    ensures
        final(limiter).wf(),
        !has_link(words(content@)) ==> r@.len() == 0 && final(limiter).view() == old(limiter).view(),
        has_link(words(content@)) ==> {
            let allowed = throttle_allows(
                old(limiter).view(),
                rate_key(user_id, "git_diffs"@),
                now,
                RATE_LIMIT_SECONDS,
            );
            &&& allowed ==> final(limiter).view().dom().contains(rate_key(user_id, "git_diffs"@))
                && final(limiter).view()[rate_key(user_id, "git_diffs"@)].0 == now
            &&& !allowed ==> final(limiter).view() == old(limiter).view()
            &&& commit_views(r@) == if allowed && only_links(words(content@)) {
                keep_commits(
                    commits_from(words(content@), words(content@).len() as int),
                    views(blocklist@),
                    compares_enabled,
                )
            } else {
                Seq::<CommitView>::empty()
            }
        },
{
    let chars = to_chars(content);
    let ws = split_whitespace(chars.as_slice());
    if !any_link(&ws) {
        return Vec::new();
    }
    if !limiter.check_rate_limit(user_id, "git_diffs", now) {
        return Vec::new();
    }
    if !all_links(&ws) {
        return Vec::new();
    }
    let found = commits_in(&ws);
    retain_allowed(found, blocklist, compares_enabled)
}

} // verus!
