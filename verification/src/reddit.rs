//! Reddit posts: links, and reading a post out of the JSON of a comments
//! listing.
use vstd::prelude::*;
use crate::text::{append, append_str, contains, contains_str, eq_exec, from_chars, lower, to_chars};
use crate::json::{
    Json, as_array, as_bool, as_str, first, get, get_str, get_str_or_empty, jarr, jbool, jfirst, jget, jget_str,
    jget_str_or_empty, jstr, od,
};
use crate::instagram::{jarr_value, or_value, str_or_empty};
use crate::pattern::{captures, group, group_exec, regex_captures};
use crate::shared::views;

verus! {

/// A post as shown.
pub struct RedditPost {
    pub author: String,
    pub subreddit: String,
    pub title: String,
    pub text: String,
    pub media: Vec<String>,
    pub nsfw: bool,
    pub spoiler: bool,
}

pub struct RedditPostView {
    pub author: Seq<char>,
    pub subreddit: Seq<char>,
    pub title: Seq<char>,
    pub text: Seq<char>,
    pub media: Seq<Seq<char>>,
    pub nsfw: bool,
    pub spoiler: bool,
}

impl RedditPost {
    pub open spec fn view(&self) -> RedditPostView {
        RedditPostView {
            author: self.author@,
            subreddit: self.subreddit@,
            title: self.title@,
            text: self.text@,
            media: views(self.media@),
            nsfw: self.nsfw,
            spoiler: self.spoiler,
        }
    }
}

/// The most characters of a post's text that are shown.
pub const REDDIT_MAX_TEXT_CHARS: usize = 1500;

/// The URL of one gallery item: the source image, GIF or MP4 of its
/// metadata entry.
pub open spec fn gallery_item_url(metadata: Option<Json>, item: Json) -> Option<Seq<char>> {
    match jget_str(Some(item), "media_id"@) {
        None => None,
        Some(id) => {
            let s = jget(jget(metadata, id), "s"@);
            jstr(or_value(or_value(jget(s, "u"@), jget(s, "gif"@)), jget(s, "mp4"@)))
        },
    }
}

pub open spec fn gallery_urls(metadata: Option<Json>, items: Seq<Json>) -> Seq<Seq<char>>
    decreases items.len(),
{
    if items.len() == 0 {
        seq![]
    } else {
        let before = gallery_urls(metadata, items.drop_last());
        match gallery_item_url(metadata, items.last()) {
            Some(u) => before.push(u),
            None => before,
        }
    }
}

pub open spec fn is_true(b: Option<bool>) -> bool {
    b == Some(true)
}

pub open spec fn video_fallback(p: Option<Json>) -> Option<Seq<char>> {
    match jget_str(jget(jget(p, "secure_media"@), "reddit_video"@), "fallback_url"@) {
        Some(u) => Some(u),
        None => jget_str(jget(jget(p, "media"@), "reddit_video"@), "fallback_url"@),
    }
}

pub open spec fn preview_url(p: Option<Json>) -> Option<Seq<char>> {
    let images = jget(jget(p, "preview"@), "images"@);
    jget_str(jget(jfirst(images), "source"@), "url"@)
}

/// A post's media: the first `limit` items of a gallery, else its video,
/// else its image link, else its preview image.
pub open spec fn extract_media_spec(p: Option<Json>, limit: nat) -> Seq<Seq<char>> {
    let items = jarr(jget(jget(p, "gallery_data"@), "items"@));
    if is_true(jbool(jget(p, "is_gallery"@))) && items is Some {
        let all = items.unwrap();
        gallery_urls(jget(p, "media_metadata"@), all.take(if limit < all.len() { limit as int } else { all.len() as int }))
    } else if is_true(jbool(jget(p, "is_video"@))) && video_fallback(p) is Some {
        seq![video_fallback(p).unwrap()]
    } else if jget_str_or_empty(p, "post_hint"@) == "image"@ && jget_str(p, "url"@) is Some {
        seq![jget_str(p, "url"@).unwrap()]
    } else {
        match preview_url(p) {
            Some(u) => seq![u],
            None => seq![],
        }
    }
}

fn one_url(u: Vec<char>) -> (r: Vec<String>)
    ensures
        views(r@) == seq![u@],
{
    let mut v: Vec<String> = Vec::new();
    v.push(from_chars(u.as_slice()));
    assert(views(v@) =~= seq![u@]);
    v
}

pub fn extract_media(p: Option<&Json>, limit: usize) -> (r: Vec<String>)
    ensures
        views(r@) == extract_media_spec(od(p), limit as nat),
{
    let is_gallery = as_bool(get(p, "is_gallery"));
    if is_gallery == Some(true) {
        if let Some(items) = as_array(get(get(p, "gallery_data"), "items")) {
            let metadata = get(p, "media_metadata");
            let n = if limit < items.len() { limit } else { items.len() };
            let mut urls: Vec<String> = Vec::new();
            let mut i: usize = 0;
            while i < n
                invariant
                    i <= n <= items@.len(),
                    views(urls@) == gallery_urls(od(metadata), items@.take(i as int)),
                decreases n - i,
            {
                assert(items@.take(i + 1).drop_last() =~= items@.take(i as int));
                assert(items@.take(i + 1).last() == items@[i as int]);
                let item = &items[i];
                if let Some(id) = as_str(get(Some(item), "media_id")) {
                    let s = get(get(metadata, id.as_str()), "s");
                    let v = match get(s, "u") {
                        Some(x) => Some(x),
                        None => match get(s, "gif") {
                            Some(x) => Some(x),
                            None => get(s, "mp4"),
                        },
                    };
                    if let Some(u) = as_str(v) {
                        let ghost before = urls@;
                        urls.push(u.clone());
                        assert(views(urls@) =~= views(before).push(u@));
                    }
                }
                i += 1;
            }
            return urls;
        }
    }
    if as_bool(get(p, "is_video")) == Some(true) {
        let v = match get_str(get(get(p, "secure_media"), "reddit_video"), "fallback_url") {
            Some(u) => Some(u),
            None => get_str(get(get(p, "media"), "reddit_video"), "fallback_url"),
        };
        if let Some(u) = v {
            return one_url(u);
        }
    }
    let hint = get_str_or_empty(p, "post_hint");
    let image = to_chars("image");
    if eq_exec(hint.as_slice(), image.as_slice()) {
        if let Some(u) = get_str(p, "url") {
            return one_url(u);
        }
    }
    let images = get(get(p, "preview"), "images");
    match get_str(get(first(images), "source"), "url") {
        Some(u) => one_url(u),
        None => Vec::new(),
    }
}

/// A post's text, cut after `REDDIT_MAX_TEXT_CHARS` characters with an
/// ellipsis.
pub open spec fn clip_text(t: Seq<char>) -> Seq<char> {
    if t.len() > REDDIT_MAX_TEXT_CHARS {
        t.take(REDDIT_MAX_TEXT_CHARS as int) + seq!['\u{2026}']
    } else {
        t
    }
}

/// A post from its listing entry: an error when it was removed or its text
/// deleted; its media come from the post it crossposts, when there is one.
pub open spec fn parse_post_spec(p: Option<Json>, limit: nat) -> Result<RedditPostView, Seq<char>> {
    let removed = jget_str_or_empty(p, "removed_by_category"@);
    let selftext = jget_str_or_empty(p, "selftext"@);
    if removed.len() > 0 {
        Err("Post was removed ("@ + removed + ")"@)
    } else if selftext == "[deleted]"@ || selftext == "[removed]"@ {
        Err("Post has been deleted or removed"@)
    } else {
        let source = match jfirst(jarr_value(jget(p, "crosspost_parent_list"@))) {
            Some(x) => Some(x),
            None => p,
        };
        Ok(
            RedditPostView {
                author: match jget_str(p, "author"@) {
                    Some(a) => a,
                    None => "[deleted]"@,
                },
                subreddit: match jget_str(p, "subreddit_name_prefixed"@) {
                    Some(s) => s,
                    None => jget_str_or_empty(p, "subreddit"@),
                },
                title: jget_str_or_empty(p, "title"@),
                text: clip_text(selftext),
                media: extract_media_spec(source, limit),
                nsfw: is_true(jbool(jget(p, "over_18"@))),
                spoiler: is_true(jbool(jget(p, "spoiler"@))),
            },
        )
    }
}

pub fn parse_post(p: Option<&Json>, limit: usize) -> (r: Result<RedditPost, String>)
    ensures
        match r {
            Ok(post) => parse_post_spec(od(p), limit as nat) == Ok::<RedditPostView, Seq<char>>(post.view()),
            Err(e) => parse_post_spec(od(p), limit as nat) == Err::<RedditPostView, Seq<char>>(e@),
        },
{
    let title = get_str_or_empty(p, "title");
    let author = match get_str(p, "author") {
        Some(a) => a,
        None => to_chars("[deleted]"),
    };
    let subreddit = match get_str(p, "subreddit_name_prefixed") {
        Some(s) => s,
        None => get_str_or_empty(p, "subreddit"),
    };
    let removed = get_str_or_empty(p, "removed_by_category");
    if removed.len() > 0 {
        let mut m = to_chars("Post was removed (");
        append(&mut m, removed.as_slice());
        append_str(&mut m, ")");
        return Err(from_chars(m.as_slice()));
    }
    let selftext = get_str_or_empty(p, "selftext");
    let del = to_chars("[deleted]");
    let rem = to_chars("[removed]");
    if eq_exec(selftext.as_slice(), del.as_slice()) || eq_exec(selftext.as_slice(), rem.as_slice()) {
        return Err("Post has been deleted or removed".to_string());
    }
    let nsfw = as_bool(get(p, "over_18")) == Some(true);
    let spoiler = as_bool(get(p, "spoiler")) == Some(true);
    let text: Vec<char> = if selftext.len() > REDDIT_MAX_TEXT_CHARS {
        let mut t = vstd::slice::slice_to_vec(vstd::slice::slice_subrange(selftext.as_slice(), 0, REDDIT_MAX_TEXT_CHARS));
        t.push('\u{2026}');
        assert(t@ =~= selftext@.take(REDDIT_MAX_TEXT_CHARS as int) + seq!['\u{2026}']);
        t
    } else {
        selftext
    };
    let source = match first(get(p, "crosspost_parent_list")) {
        Some(x) => Some(x),
        None => p,
    };
    assert(text@ == clip_text(selftext@));
    assert(od(source) == match jfirst(jarr_value(jget(od(p), "crosspost_parent_list"@))) {
        Some(x) => Some(x),
        None => od(p),
    });
    let media = extract_media(source, limit);
    Ok(RedditPost {
        author: from_chars(author.as_slice()),
        subreddit: from_chars(subreddit.as_slice()),
        title: from_chars(title.as_slice()),
        text: from_chars(text.as_slice()),
        media,
        nsfw,
        spoiler,
    })
}

/// The post entry of a comments listing: `[0].data.children[0].data`.
pub open spec fn listing_post(json: Json) -> Option<Json> {
    let children = jget(jget(jfirst(Some(json)), "data"@), "children"@);
    jget(jfirst(children), "data"@)
}

pub fn listing_post_exec(json: &Json) -> (r: Option<&Json>)
    ensures
        od(r) == listing_post(*json),
{
    let children = get(get(first(Some(json)), "data"), "children");
    get(first(children), "data")
}

pub const POST_ID_PATTERN: &'static str = r"(?i)https?://(?:[a-z0-9-]+\.)?reddit(?:media)?\.com/(?:(?:r|u|user)/[^/?#]+/)?comments/([a-z0-9]+)";
pub const SHORT_ID_PATTERN: &'static str = r"(?i)https?://redd\.it/([a-z0-9]+)";
pub const SHARE_LINK_PATTERN: &'static str = r"(?i)https?://(?:[a-z0-9-]+\.)?reddit\.com/(?:r|u|user)/[^/?#]+/s/[a-zA-Z0-9]+";

/// The post id of a comments link or of a `redd.it` short link.
pub open spec fn post_id_spec(url: Seq<char>) -> Option<Seq<char>> {
    match regex_captures(POST_ID_PATTERN@, url) {
        Some(caps) => group(caps, 1),
        None => match regex_captures(SHORT_ID_PATTERN@, url) {
            Some(caps) => group(caps, 1),
            None => None,
        },
    }
}

pub fn extract_post_id(url: &str) -> (r: Option<String>)
    ensures
        match r {
            Some(id) => post_id_spec(url@) == Some(id@),
            None => post_id_spec(url@) is None,
        },
{
    if let Some(caps) = captures(POST_ID_PATTERN, url) {
        return match group_exec(&caps, 1) {
            Some(g) => Some(from_chars(g.as_slice())),
            None => None,
        };
    }
    match captures(SHORT_ID_PATTERN, url) {
        Some(caps) => match group_exec(&caps, 1) {
            Some(g) => Some(from_chars(g.as_slice())),
            None => None,
        },
        None => None,
    }
}

/// Whether a link is a share link (`/s/...`) that has to be followed to
/// find the post.
pub fn is_share_link(url: &str) -> (r: bool)
    ensures
        r == (regex_captures(SHARE_LINK_PATTERN@, url@) is Some),
{
    captures(SHARE_LINK_PATTERN, url).is_some()
}

/// What a Reddit link gives to fetch: the post id, or a share link to
/// follow first.
pub fn post_source(url: &str) -> (r: crate::shared::FetchTarget)
    ensures
        match post_id_spec(url@) {
            Some(id) => (r matches crate::shared::FetchTarget::Id(c) && c@ == id),
            None => if regex_captures(SHARE_LINK_PATTERN@, url@) is Some {
                r is Redirect
            } else {
                r is Unknown
            },
        },
{
    match extract_post_id(url) {
        Some(id) => crate::shared::FetchTarget::Id(id),
        None => if is_share_link(url) {
            crate::shared::FetchTarget::Redirect
        } else {
            crate::shared::FetchTarget::Unknown
        },
    }
}

/// The JSON address of a post.
pub fn comments_url(post_id: &str) -> (r: String)
    ensures
        r@ == "https://www.reddit.com/comments/"@ + post_id@ + ".json?raw_json=1"@,
{
    let mut out = to_chars("https://www.reddit.com/comments/");
    append_str(&mut out, post_id);
    append_str(&mut out, ".json?raw_json=1");
    from_chars(out.as_slice())
}

} // verus!
