//! Finding the links that a media handler answers in a message.
use vstd::prelude::*;
use crate::text::{contains, contains_str, eq_exec, from_chars, lower, split_whitespace, to_chars, vv, words};
use crate::shared::{
    clean_media_url_chars, clean_media_url_spec, is_url_in_blocklist, matches_host_spec, url_in_blocklist_spec,
    views,
};
use crate::twitter::{is_twitter_url, is_twitter_url_spec};
use crate::bsky::{bsky_hosts_spec, is_bsky_url};
use crate::links::{is_instagram_url, is_instagram_url_spec, is_reddit_url, is_reddit_url_spec, is_tiktok_url, is_tiktok_url_spec};
use crate::streamable::{matches_streamable_host, streamable_hosts_spec};
use crate::tiktok::{parse_spec as tiktok_parse_spec};
use crate::git_diff::opt_view;
use crate::git_file::{GitFileLink, GitFileLinkView, file_link_spec};
use crate::links::{clean_file_url, clean_file_url_spec, is_git_platform_url, is_git_platform_url_spec};

verus! {

/// The media services whose links are answered.
#[derive(Clone, Copy)]
pub enum LinkService {
    Twitter,
    Bsky,
    Instagram,
    Reddit,
    Streamable,
}

/// A word is a link the service answers.
pub open spec fn is_service_url(service: LinkService, word: Seq<char>, custom: Seq<Seq<char>>) -> bool {
    match service {
        LinkService::Twitter => is_twitter_url_spec(word, custom),
        LinkService::Bsky => matches_host_spec(word, bsky_hosts_spec(), custom) && contains(word, "/post/"@),
        LinkService::Instagram => is_instagram_url_spec(word),
        LinkService::Reddit => is_reddit_url_spec(word),
        LinkService::Streamable => matches_host_spec(word, streamable_hosts_spec(), custom),
    }
}

fn is_service_url_exec(service: LinkService, word: &str, custom: &[String]) -> (r: bool)
    ensures
        r == is_service_url(service, word@, views(custom@)),
{
    match service {
        LinkService::Twitter => is_twitter_url(word, custom),
        LinkService::Bsky => is_bsky_url(word, custom),
        LinkService::Instagram => is_instagram_url(word),
        LinkService::Reddit => is_reddit_url(word),
        LinkService::Streamable => matches_streamable_host(word, custom),
    }
}

/// The links of the words, in order: each word the service answers,
/// cleaned of surrounding punctuation, and each cleaned link once.
pub open spec fn scan(ws: Seq<Seq<char>>, service: LinkService, custom: Seq<Seq<char>>) -> Seq<Seq<char>>
    decreases ws.len(),
{
    if ws.len() == 0 {
        seq![]
    } else {
        let prev = scan(ws.drop_last(), service, custom);
        let w = ws.last();
        let c = clean_media_url_spec(w);
        if is_service_url(service, w, custom) && !prev.contains(c) {
            prev.push(c)
        } else {
            prev
        }
    }
}

fn contains_text(v: &Vec<String>, x: &[char]) -> (r: bool)
    ensures
        r == views(v@).contains(x@),
{
    let mut i: usize = 0;
    while i < v.len()
        invariant
            i <= v@.len(),
            forall|j: int| 0 <= j < i ==> views(v@)[j] != x@,
        decreases v@.len() - i,
    {
        let c = to_chars(v[i].as_str());
        if eq_exec(c.as_slice(), x) {
            assert(views(v@)[i as int] == x@);
            return true;
        }
        i += 1;
    }
    false
}

/// The links in a message that a media service answers.
pub fn found_links(content: &str, service: LinkService, custom: &[String]) -> (r: Vec<String>)
    ensures
        views(r@) == scan(words(content@), service, views(custom@)),
{
    let c = to_chars(content);
    let ws = split_whitespace(c.as_slice());
    let ghost all = vv(ws@);
    let mut out: Vec<String> = Vec::new();
    let mut i: usize = 0;
    assert(all.take(0) =~= Seq::<Seq<char>>::empty());
    while i < ws.len()
        invariant
            i <= ws@.len(),
            all == vv(ws@),
            all == words(c@),
            c@ == content@,
            views(out@) == scan(all.take(i as int), service, views(custom@)),
        decreases ws@.len() - i,
    {
        let ghost t = all.take(i as int + 1);
        assert(t.drop_last() =~= all.take(i as int));
        assert(t.last() == ws@[i as int]@);
        let word = from_chars(ws[i].as_slice());
        if is_service_url_exec(service, word.as_str(), custom) {
            let cleaned = clean_media_url_chars(ws[i].as_slice());
            if !contains_text(&out, cleaned) {
                let ghost before = out@;
                out.push(from_chars(cleaned));
                assert(views(out@) =~= views(before).push(cleaned@));
            }
        }
        i += 1;
    }
    assert(all.take(ws@.len() as int) =~= all);
    out
}

pub open spec fn not_blocked(blocklist: Seq<Seq<char>>) -> spec_fn(Seq<char>) -> bool {
    |u: Seq<char>| !url_in_blocklist_spec(u, blocklist)
}

/// The links whose host is not on the server's blocklist, in order.
pub fn drop_blocked(urls: Vec<String>, blocklist: &[String]) -> (r: Vec<String>)
    ensures
        views(r@) == views(urls@).filter(not_blocked(views(blocklist@))),
{
    let mut out: Vec<String> = Vec::new();
    let mut i: usize = 0;
    let ghost all = views(urls@);
    proof {
        reveal(Seq::filter);
    }
    assert(all.take(0) =~= Seq::<Seq<char>>::empty());
    while i < urls.len()
        invariant
            i <= urls@.len(),
            all == views(urls@),
            views(out@) == all.take(i as int).filter(not_blocked(views(blocklist@))),
        decreases urls@.len() - i,
    {
        let ghost t = all.take(i as int + 1);
        assert(t.drop_last() =~= all.take(i as int));
        assert(t.last() == urls@[i as int]@);
        if !is_url_in_blocklist(urls[i].as_str(), blocklist) {
            let ghost before = out@;
            out.push(from_chars(to_chars(urls[i].as_str()).as_slice()));
            assert(views(out@) =~= views(before).push(urls@[i as int]@));
        }
        proof {
            reveal(Seq::filter);
        }
        i += 1;
    }
    assert(all.take(urls@.len() as int) =~= all);
    out
}

/// The TikTok posts of the words, in order: each TikTok link, cleaned and
/// read as its short link, and each short link once.
pub open spec fn scan_tiktok(ws: Seq<Seq<char>>, custom: Seq<Seq<char>>) -> Seq<Seq<char>>
    decreases ws.len(),
{
    if ws.len() == 0 {
        seq![]
    } else {
        let prev = scan_tiktok(ws.drop_last(), custom);
        let w = ws.last();
        if is_tiktok_url_spec(w) {
            match tiktok_parse_spec(clean_media_url_spec(w), custom) {
                Some(p) => if prev.contains(p) {
                    prev
                } else {
                    prev.push(p)
                },
                None => prev,
            }
        } else {
            prev
        }
    }
}

/// The TikTok posts that a message links to.
pub fn found_tiktok_links(content: &str, custom: &[String]) -> (r: Vec<String>)
    ensures
        views(r@) == scan_tiktok(words(content@), views(custom@)),
{
    let c = to_chars(content);
    let ws = split_whitespace(c.as_slice());
    let ghost all = vv(ws@);
    let mut out: Vec<String> = Vec::new();
    let mut i: usize = 0;
    assert(all.take(0) =~= Seq::<Seq<char>>::empty());
    while i < ws.len()
        invariant
            i <= ws@.len(),
            all == vv(ws@),
            all == words(c@),
            c@ == content@,
            views(out@) == scan_tiktok(all.take(i as int), views(custom@)),
        decreases ws@.len() - i,
    {
        let ghost t = all.take(i as int + 1);
        assert(t.drop_last() =~= all.take(i as int));
        assert(t.last() == ws@[i as int]@);
        let word = from_chars(ws[i].as_slice());
        if is_tiktok_url(word.as_str()) {
            let cleaned = from_chars(clean_media_url_chars(ws[i].as_slice()));
            match crate::tiktok::parse(cleaned.as_str(), custom) {
                Some(p) => {
                    let pc = to_chars(p.as_str());
                    if !contains_text(&out, pc.as_slice()) {
                        let ghost before = out@;
                        out.push(p);
                        assert(views(out@) =~= views(before).push(pc@));
                    }
                },
                None => {},
            }
        }
        i += 1;
    }
    assert(all.take(ws@.len() as int) =~= all);
    out
}

/// The file links of the words, in order: each word on a git host's file
/// view that reads, cleaned, as a file link.
pub open spec fn scan_files(ws: Seq<Seq<char>>) -> Seq<GitFileLinkView>
    decreases ws.len(),
{
    if ws.len() == 0 {
        seq![]
    } else {
        let prev = scan_files(ws.drop_last());
        let w = ws.last();
        if is_git_platform_url_spec(w) {
            match file_link_spec(clean_file_url_spec(w)) {
                Some(l) => prev.push(l),
                None => prev,
            }
        } else {
            prev
        }
    }
}

pub open spec fn link_views(ls: Seq<GitFileLink>) -> Seq<GitFileLinkView> {
    ls.map_values(|l: GitFileLink| l.view())
}

/// The links to files on git hosts in a message.
pub fn found_file_links(content: &str) -> (r: Vec<GitFileLink>)
    ensures
        link_views(r@) == scan_files(words(content@)),
{
    let c = to_chars(content);
    let ws = split_whitespace(c.as_slice());
    let ghost all = vv(ws@);
    let mut out: Vec<GitFileLink> = Vec::new();
    let mut i: usize = 0;
    assert(all.take(0) =~= Seq::<Seq<char>>::empty());
    while i < ws.len()
        invariant
            i <= ws@.len(),
            all == vv(ws@),
            all == words(c@),
            c@ == content@,
            link_views(out@) == scan_files(all.take(i as int)),
        decreases ws@.len() - i,
    {
        let ghost t = all.take(i as int + 1);
        assert(t.drop_last() =~= all.take(i as int));
        assert(t.last() == ws@[i as int]@);
        let word = from_chars(ws[i].as_slice());
        if is_git_platform_url(word.as_str()) {
            let cleaned = clean_file_url(word.as_str());
            match GitFileLink::parse(cleaned.as_str()) {
                Some(l) => {
                    let ghost before = out@;
                    out.push(l);
                    assert(link_views(out@) =~= link_views(before).push(l.view()));
                },
                None => {},
            }
        }
        i += 1;
    }
    assert(all.take(ws@.len() as int) =~= all);
    out
}

pub open spec fn link_not_blocked(blocklist: Seq<Seq<char>>) -> spec_fn(GitFileLinkView) -> bool {
    |l: GitFileLinkView| !url_in_blocklist_spec(l.original_url, blocklist)
}

/// The file links whose host is not on the server's blocklist, in order.
pub fn drop_blocked_files(links: Vec<GitFileLink>, blocklist: &[String]) -> (r: Vec<GitFileLink>)
    ensures
        link_views(r@) == link_views(links@).filter(link_not_blocked(views(blocklist@))),
{
    let mut out: Vec<GitFileLink> = Vec::new();
    let ghost all = link_views(links@);
    let mut rest = links;
    let mut i: usize = 0;
    let n = rest.len();
    proof {
        reveal(Seq::filter);
    }
    assert(all.take(0) =~= Seq::<GitFileLinkView>::empty());
    while i < n
        invariant
            i <= n,
            n == all.len(),
            all == link_views(links@),
            link_views(out@) == all.take(i as int).filter(link_not_blocked(views(blocklist@))),
            rest@.len() == n,
            forall|j: int| i <= j < n ==> #[trigger] rest@[j].view() == all[j],
        decreases n - i,
    {
        let ghost t = all.take(i as int + 1);
        assert(t.drop_last() =~= all.take(i as int));
        assert(t.last() == rest@[i as int].view());
        let l = rest[i].duplicate();
        if !is_url_in_blocklist(l.original_url.as_str(), blocklist) {
            let ghost before = out@;
            out.push(l);
            assert(link_views(out@) =~= link_views(before).push(all[i as int]));
        }
        proof {
            reveal(Seq::filter);
        }
        i += 1;
    }
    assert(all.take(n as int) =~= all);
    out
}

} // verus!
