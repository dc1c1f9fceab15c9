//! Which words of a message are links a media or git handler answers, and
//! what the downloaded media files are called.
use vstd::prelude::*;
use crate::text::{
    append, append_str, before_first, before_first_exec, contains, contains_str, drop_while_end, find, find_exec,
    from_chars, lower, lower_exec, split_once, split_once_exec, starts_with, starts_with_str, to_chars,
    trim_start_str, trim_start_str_exec,
};
use crate::num::{decimal, decimal_exec};
use crate::shared::{
    extract_host_spec, extract_host_chars, matches_host_spec, matches_host, not_alnum_or_slash, str_views, views,
};
use crate::pattern::{captures, group, group_exec, regex_captures};

verus! {

// ------------------------------------------------------------------- git

/// A link to a file on GitHub, GitLab, Gitea or a rustdoc source page.
pub open spec fn is_git_platform_url_spec(w: Seq<char>) -> bool {
    (contains(w, "github.com"@) && contains(w, "/blob/"@)) || contains(w, "/-/blob/"@) || contains(w, "/src/branch/"@)
        || contains(w, "/src/commit/"@) || (contains(w, "/src/"@) && contains(w, ".rs.html"@))
}

pub fn is_git_platform_url(word: &str) -> (r: bool)
    ensures
        r == is_git_platform_url_spec(word@),
{
    let w = to_chars(word);
    let w = w.as_slice();
    (contains_str(w, "github.com") && contains_str(w, "/blob/")) || contains_str(w, "/-/blob/") || contains_str(
        w,
        "/src/branch/",
    ) || contains_str(w, "/src/commit/") || (contains_str(w, "/src/") && contains_str(w, ".rs.html"))
}

/// A file link without trailing characters that are neither alphanumeric
/// nor `/`.
pub open spec fn clean_file_url_spec(url: Seq<char>) -> Seq<char> {
    drop_while_end(url, not_alnum_or_slash())
}

pub fn clean_file_url(url: &str) -> (r: String)
    ensures
        r@ == clean_file_url_spec(url@),
{
    let u = to_chars(url);
    let mut b: usize = u.len();
    assert(u@.subrange(0, b as int) =~= u@);
    while b > 0 && !crate::text::is_alphanumeric(u[b - 1]) && u[b - 1] != '/'
        invariant
            b <= u@.len(),
            u@ == url@,
            drop_while_end(u@.subrange(0, b as int), not_alnum_or_slash()) == clean_file_url_spec(url@),
        decreases b,
    {
        assert(u@.subrange(0, b as int).drop_last() =~= u@.subrange(0, b - 1));
        b -= 1;
    }
    from_chars(vstd::slice::slice_subrange(u.as_slice(), 0, b))
}

// ------------------------------------------------------------- instagram

pub open spec fn is_instagram_url_spec(word: Seq<char>) -> bool {
    let l = lower(word);
    contains(l, "instagram.com"@) && (contains(l, "/p/"@) || contains(l, "/reel/"@) || contains(l, "/reels/"@)
        || contains(l, "/tv/"@) || contains(l, "/share/"@))
}

/// A link to an Instagram post, reel, video or share link.
pub fn is_instagram_url(word: &str) -> (r: bool)
    ensures
        r == is_instagram_url_spec(word@),
{
    let l = lower_exec(to_chars(word).as_slice());
    let l = l.as_slice();
    contains_str(l, "instagram.com") && (contains_str(l, "/p/") || contains_str(l, "/reel/") || contains_str(
        l,
        "/reels/",
    ) || contains_str(l, "/tv/") || contains_str(l, "/share/"))
}

pub open spec fn instagram_mirrors_spec() -> Seq<Seq<char>> {
    seq!["kkinstagram.com"@, "vxinstagram.com"@, "eeinstagram.com"@, "uuinstagram.com"@]
}

/// The mirror sites posts are read from when the APIs fail.
pub fn instagram_mirrors() -> (r: Vec<&'static str>)
    ensures
        str_views(r@) == instagram_mirrors_spec(),
{
    let r = vec!["kkinstagram.com", "vxinstagram.com", "eeinstagram.com", "uuinstagram.com"];
    assert(str_views(r@) =~= instagram_mirrors_spec());
    r
}

/// Whether a media URL is served by one of the mirrors (which want their
/// own user agent).
pub fn is_mirror_media_url(url: &str) -> (r: bool)
    ensures
        r == exists|i: int| 0 <= i < instagram_mirrors_spec().len() && contains(url@, instagram_mirrors_spec()[i]),
{
    let u = to_chars(url);
    let ms = instagram_mirrors();
    let mut i: usize = 0;
    while i < ms.len()
        invariant
            i <= ms@.len(),
            u@ == url@,
            str_views(ms@) == instagram_mirrors_spec(),
            forall|j: int| 0 <= j < i ==> !contains(url@, #[trigger] instagram_mirrors_spec()[j]),
        decreases ms@.len() - i,
    {
        if contains_str(u.as_slice(), ms[i]) {
            assert(contains(url@, instagram_mirrors_spec()[i as int]));
            return true;
        }
        i += 1;
    }
    false
}

/// The name of a downloaded Instagram media file: a video when the URL
/// says `.mp4` or `video`, a WebP image, or else a JPEG.
pub open spec fn instagram_filename_spec(index: nat, url: Seq<char>) -> Seq<char> {
    let ext = if contains(url, ".mp4"@) || contains(url, "video"@) {
        "mp4"@
    } else if contains(url, ".webp"@) {
        "webp"@
    } else {
        "jpg"@
    };
    "instagram_"@ + decimal(index) + "."@ + ext
}

pub fn instagram_media_filename(index: usize, url: &str) -> (r: String)
    requires
        index <= u64::MAX,
    ensures
        r@ == instagram_filename_spec(index as nat, url@),
{
    let u = to_chars(url);
    let ext = if contains_str(u.as_slice(), ".mp4") || contains_str(u.as_slice(), "video") {
        "mp4"
    } else if contains_str(u.as_slice(), ".webp") {
        "webp"
    } else {
        "jpg"
    };
    let mut out = to_chars("instagram_");
    append(&mut out, decimal_exec(index as u64).as_slice());
    append_str(&mut out, ".");
    append_str(&mut out, ext);
    from_chars(out.as_slice())
}

// ------------------------------------------------------------------ hosts

/// The host of a lower-cased link: after `://`, up to the first `/`.
pub open spec fn scheme_host(lower_url: Seq<char>) -> Option<Seq<char>> {
    match find(lower_url, "://"@) {
        Some(i) => Some(before_first(lower_url.skip(i + 3), "/"@)),
        None => None,
    }
}

fn scheme_host_exec(l: &[char]) -> (r: Option<(Vec<char>, Vec<char>)>)
    ensures
        match r {
            Some((host, after)) => scheme_host(l@) == Some(host@) && (find(l@, "://"@) matches Some(i) && after@
                == l@.skip(i + 3)),
            None => scheme_host(l@) is None,
        },
{
    let sep = to_chars("://");
    match find_exec(l, sep.as_slice()) {
        Some(i) => {
            proof {
                crate::text::lemma_find(l@, sep@);
                reveal_strlit("://");
                assert(sep@.len() == 3);
            }
            assert(i + 3 <= l@.len());
            let rest = vstd::slice::slice_subrange(l, i, l.len());
            let after = vstd::slice::slice_subrange(rest, 3, rest.len());
            assert(after@ =~= l@.skip(i + 3));
            let slash = to_chars("/");
            let host = before_first_exec(after, slash.as_slice());
            Some((vstd::slice::slice_to_vec(host), vstd::slice::slice_to_vec(after)))
        },
        None => None,
    }
}

// ---------------------------------------------------------------- tiktok

pub open spec fn tiktok_host_name(host: Seq<char>) -> Seq<char> {
    trim_start_str(trim_start_str(trim_start_str(trim_start_str(host, "www."@), "vm."@), "vt."@), "m."@)
}

/// A TikTok link: its host is `tiktok.com` after leading `www.`, `vm.`,
/// `vt.` and `m.`.
pub open spec fn is_tiktok_url_spec(word: Seq<char>) -> bool {
    match scheme_host(lower(word)) {
        Some(h) => tiktok_host_name(h) == "tiktok.com"@,
        None => false,
    }
}

pub fn is_tiktok_url(word: &str) -> (r: bool)
    ensures
        r == is_tiktok_url_spec(word@),
{
    let l = lower_exec(to_chars(word).as_slice());
    match scheme_host_exec(l.as_slice()) {
        Some((h, _)) => {
            let a = to_chars("www.");
            let b = to_chars("vm.");
            let c = to_chars("vt.");
            let d = to_chars("m.");
            let n = trim_start_str_exec(
                trim_start_str_exec(trim_start_str_exec(trim_start_str_exec(h.as_slice(), a.as_slice()), b.as_slice()), c.as_slice()),
                d.as_slice(),
            );
            crate::text::eq_str(n, "tiktok.com")
        },
        None => false,
    }
}

/// The name of a downloaded TikTok media file.
pub open spec fn tiktok_filename_spec(index: nat, url: Seq<char>) -> Seq<char> {
    let l = lower(url);
    let ext = if contains(l, ".jpeg"@) || contains(l, ".jpg"@) {
        "jpg"@
    } else if contains(l, ".webp"@) {
        "webp"@
    } else if contains(l, ".png"@) {
        "png"@
    } else if contains(l, ".mp4"@) || contains(l, "/play/"@) || contains(l, "playwm"@) {
        "mp4"@
    } else {
        "jpg"@
    };
    "tiktok_"@ + decimal(index) + "."@ + ext
}

pub fn tiktok_media_filename(index: usize, url: &str) -> (r: String)
    requires
        index <= u64::MAX,
    ensures
        r@ == tiktok_filename_spec(index as nat, url@),
{
    let l = lower_exec(to_chars(url).as_slice());
    let l = l.as_slice();
    let ext = if contains_str(l, ".jpeg") || contains_str(l, ".jpg") {
        "jpg"
    } else if contains_str(l, ".webp") {
        "webp"
    } else if contains_str(l, ".png") {
        "png"
    } else if contains_str(l, ".mp4") || contains_str(l, "/play/") || contains_str(l, "playwm") {
        "mp4"
    } else {
        "jpg"
    };
    let mut out = to_chars("tiktok_");
    append(&mut out, decimal_exec(index as u64).as_slice());
    append_str(&mut out, ".");
    append_str(&mut out, ext);
    from_chars(out.as_slice())
}

// ---------------------------------------------------------------- reddit

pub open spec fn reddit_host_name(host: Seq<char>) -> Seq<char> {
    let a = trim_start_str(trim_start_str(trim_start_str(host, "www."@), "old."@), "new."@);
    let b = trim_start_str(trim_start_str(trim_start_str(a, "m."@), "np."@), "amp."@);
    trim_start_str(b, "i."@)
}

/// A link to a Reddit post: a `redd.it` short link with a path, or a
/// `/comments/` or `/s/` link on Reddit (not its media hosts).
pub open spec fn is_reddit_url_spec(word: Seq<char>) -> bool {
    let l = lower(word);
    match find(l, "://"@) {
        None => false,
        Some(i) => {
            let after = l.skip(i + 3);
            let host = before_first(after, "/"@);
            if host == "redd.it"@ {
                match split_once(after, "/"@) {
                    Some((_, p)) => p.len() > 0,
                    None => false,
                }
            } else if host == "i.redd.it"@ || host == "v.redd.it"@ || host == "preview.redd.it"@ {
                false
            } else {
                let n = reddit_host_name(host);
                (n == "reddit.com"@ || n == "redditmedia.com"@) && (contains(l, "/comments/"@) || contains(l, "/s/"@))
            }
        },
    }
}

fn trim_chain(h: &[char], prefixes: &Vec<&'static str>) -> (r: Vec<char>)
    ensures
        r@ == trim_all(h@, str_views(prefixes@)),
{
    let mut cur = vstd::slice::slice_to_vec(h);
    let mut i: usize = 0;
    while i < prefixes.len()
        invariant
            i <= prefixes@.len(),
            cur@ == trim_all(h@, str_views(prefixes@).take(i as int)),
        decreases prefixes@.len() - i,
    {
        let p = to_chars(prefixes[i]);
        assert(str_views(prefixes@).take(i + 1).drop_last() =~= str_views(prefixes@).take(i as int));
        cur = vstd::slice::slice_to_vec(trim_start_str_exec(cur.as_slice(), p.as_slice()));
        i += 1;
    }
    assert(str_views(prefixes@).take(prefixes@.len() as int) =~= str_views(prefixes@));
    cur
}

/// Each prefix of the list trimmed off the start in turn.
pub open spec fn trim_all(s: Seq<char>, ps: Seq<Seq<char>>) -> Seq<char>
    decreases ps.len(),
{
    if ps.len() == 0 {
        s
    } else {
        trim_start_str(trim_all(s, ps.drop_last()), ps.last())
    }
}

pub fn is_reddit_url(word: &str) -> (r: bool)
    ensures
        r == is_reddit_url_spec(word@),
{
    let l = lower_exec(to_chars(word).as_slice());
    let (host, after) = match scheme_host_exec(l.as_slice()) {
        Some(x) => x,
        None => return false,
    };
    if crate::text::eq_str(host.as_slice(), "redd.it") {
        let slash = to_chars("/");
        return match split_once_exec(after.as_slice(), slash.as_slice()) {
            Some((_, p)) => p.len() > 0,
            None => false,
        };
    }
    if crate::text::eq_str(host.as_slice(), "i.redd.it") || crate::text::eq_str(host.as_slice(), "v.redd.it")
        || crate::text::eq_str(host.as_slice(), "preview.redd.it") {
        return false;
    }
    let prefixes = vec!["www.", "old.", "new.", "m.", "np.", "amp.", "i."];
    let n = trim_chain(host.as_slice(), &prefixes);
    proof {
        let ps = str_views(prefixes@);
        assert(ps =~= seq!["www."@, "old."@, "new."@, "m."@, "np."@, "amp."@, "i."@]);
        reveal_with_fuel(trim_all, 8);
    }
    (crate::text::eq_str(n.as_slice(), "reddit.com") || crate::text::eq_str(n.as_slice(), "redditmedia.com")) && (
    contains_str(l.as_slice(), "/comments/") || contains_str(l.as_slice(), "/s/"))
}

/// The name of a downloaded Reddit media file.
pub open spec fn reddit_filename_spec(index: nat, url: Seq<char>) -> Seq<char> {
    let l = lower(url);
    let ext = if contains(l, ".mp4"@) || contains(l, "/dash_"@) {
        "mp4"@
    } else if contains(l, ".gif"@) {
        "gif"@
    } else if contains(l, ".webp"@) {
        "webp"@
    } else if contains(l, ".png"@) {
        "png"@
    } else {
        "jpg"@
    };
    "reddit_"@ + decimal(index) + "."@ + ext
}

pub fn reddit_media_filename(index: usize, url: &str) -> (r: String)
    requires
        index <= u64::MAX,
    ensures
        r@ == reddit_filename_spec(index as nat, url@),
{
    let l = lower_exec(to_chars(url).as_slice());
    let l = l.as_slice();
    let ext = if contains_str(l, ".mp4") || contains_str(l, "/dash_") {
        "mp4"
    } else if contains_str(l, ".gif") {
        "gif"
    } else if contains_str(l, ".webp") {
        "webp"
    } else if contains_str(l, ".png") {
        "png"
    } else {
        "jpg"
    };
    let mut out = to_chars("reddit_");
    append(&mut out, decimal_exec(index as u64).as_slice());
    append_str(&mut out, ".");
    append_str(&mut out, ext);
    from_chars(out.as_slice())
}

} // verus!
