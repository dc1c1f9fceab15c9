//! Tweets: recognizing tweet links, and reading a post out of the
//! syndication service's JSON.
use vstd::prelude::*;
use crate::text::{
    append, append_str, contains, contains_str, find, find_exec, from_chars, lower, lower_exec, replace,
    replace_all, replace_all_exec, replace_str, to_chars, trim, trim_exec,
};
use crate::json::{
    Json, as_array, as_i64, as_str, get, get_str, get_str_or_empty, jarr, jget, jget_str, jget_str_or_empty,
    jint, jnonempty_object, is_nonempty_object, od,
};
use crate::shared::{
    extract_host_spec, extract_host_chars, host_under_domain_spec, host_under_domain_chars, matches_host_spec,
    matches_host, str_views, views,
};
use crate::pattern::{captures, group, group_exec, regex_captures};

verus! {

/// Why a tweet cannot be shown.
#[derive(PartialEq, Eq, Structural, Clone, Copy, Debug)]
pub enum TwitterError {
    Deleted,
    Unavailable,
}

impl TwitterError {
    /// The failure code reported for the error.
    pub fn code(&self) -> (r: &'static str)
        ensures
            r@ == match *self {
                TwitterError::Deleted => "deleted"@,
                TwitterError::Unavailable => "unavailable"@,
            },
    {
        match self {
            TwitterError::Deleted => "deleted",
            TwitterError::Unavailable => "unavailable",
        }
    }

    /// The error as a sentence.
    pub fn message(&self) -> (r: &'static str)
        ensures
            r@ == match *self {
                TwitterError::Deleted => "tweet has been deleted or removed"@,
                TwitterError::Unavailable => "tweet is unavailable (private or restricted)"@,
            },
    {
        match self {
            TwitterError::Deleted => "tweet has been deleted or removed",
            TwitterError::Unavailable => "tweet is unavailable (private or restricted)",
        }
    }
}

pub open spec fn twitter_hosts_spec() -> Seq<Seq<char>> {
    seq![
        "twitter.com"@,
        "x.com"@,
        "vxtwitter.com"@,
        "fxtwitter.com"@,
        "fixupx.com"@,
        "xfixup.com"@,
        "fixvx.com"@,
        "twittpr.com"@,
        "twitterez.com"@,
    ]
}

/// The domains of Twitter and of the services that mirror it.
pub fn twitter_hosts() -> (r: Vec<&'static str>)
    ensures
        str_views(r@) == twitter_hosts_spec(),
{
    let r = vec![
        "twitter.com",
        "x.com",
        "vxtwitter.com",
        "fxtwitter.com",
        "fixupx.com",
        "xfixup.com",
        "fixvx.com",
        "twittpr.com",
        "twitterez.com",
    ];
    assert(str_views(r@) =~= twitter_hosts_spec());
    r
}

/// Whether a URL is on Twitter or one of its mirrors (or a domain added for
/// Twitter at run time, `custom`).
pub fn matches_twitter_host(url: &str, custom: &[String]) -> (r: bool)
    ensures
        r == matches_host_spec(url@, twitter_hosts_spec(), views(custom@)),
{
    let hosts = twitter_hosts();
    matches_host(url, hosts.as_slice(), custom)
}

/// A word that links to a tweet: a `t.co` short link, or a `/status/` link
/// on a Twitter host.
pub open spec fn is_twitter_url_spec(word: Seq<char>, custom: Seq<Seq<char>>) -> bool {
    (match extract_host_spec(lower(word)) {
        Some(h) => host_under_domain_spec(h, "t.co"@),
        None => false,
    }) || (matches_host_spec(word, twitter_hosts_spec(), custom) && contains(lower(word), "/status/"@))
}

pub fn is_twitter_url(word: &str, custom: &[String]) -> (r: bool)
    ensures
        r == is_twitter_url_spec(word@, views(custom@)),
{
    let w = to_chars(word);
    let lw = lower_exec(w.as_slice());
    if let Some(h) = extract_host_chars(lw.as_slice()) {
        let tco = to_chars("t.co");
        if host_under_domain_chars(h.as_slice(), tco.as_slice()) {
            return true;
        }
    }
    matches_twitter_host(word, custom) && contains_str(lw.as_slice(), "/status/")
}

pub const TWEET_ID_PATTERN: &'static str = r"(?i)/(?:i/web/|[^/?#]+/)?status/(\d+)";

/// The id of the tweet a link points to: the digits after `status/`, on a
/// Twitter host.
pub open spec fn tweet_id_spec(url: Seq<char>, custom: Seq<Seq<char>>) -> Option<Seq<char>> {
    if !matches_host_spec(url, twitter_hosts_spec(), custom) {
        None
    } else {
        match regex_captures(TWEET_ID_PATTERN@, url) {
            Some(caps) => group(caps, 1),
            None => None,
        }
    }
}

pub fn extract_tweet_id(url: &str, custom: &[String]) -> (r: Option<String>)
    ensures
        match r {
            Some(id) => tweet_id_spec(url@, views(custom@)) == Some(id@),
            None => tweet_id_spec(url@, views(custom@)) is None,
        },
{
    if !matches_twitter_host(url, custom) {
        return None;
    }
    let caps = match captures(TWEET_ID_PATTERN, url) {
        Some(c) => c,
        None => return None,
    };
    match group_exec(&caps, 1) {
        Some(g) => Some(from_chars(g.as_slice())),
        None => None,
    }
}

/// What a tweet link gives to fetch: the tweet id, or a `t.co` link to
/// follow first.
pub fn tweet_source(url: &str, custom: &[String]) -> (r: crate::shared::FetchTarget)
    ensures
        match tweet_id_spec(url@, views(custom@)) {
            Some(id) => (r matches crate::shared::FetchTarget::Id(c) && c@ == id),
            None => if contains(url@, "t.co/"@) {
                r is Redirect
            } else {
                r is Unknown
            },
        },
{
    match extract_tweet_id(url, custom) {
        Some(id) => crate::shared::FetchTarget::Id(id),
        None => {
            let c = to_chars(url);
            if contains_str(c.as_slice(), "t.co/") {
                crate::shared::FetchTarget::Redirect
            } else {
                crate::shared::FetchTarget::Unknown
            }
        },
    }
}

/// The syndication API's address for a tweet and its token.
pub fn syndication_url(tweet_id: &str, token: &str) -> (r: String)
    ensures
        r@ == "https://cdn.syndication.twimg.com/tweet-result?id="@ + tweet_id@ + "&token="@ + token@
            + "&lang=en"@,
{
    let mut out = to_chars("https://cdn.syndication.twimg.com/tweet-result?id=");
    append_str(&mut out, tweet_id);
    append_str(&mut out, "&token=");
    append_str(&mut out, token);
    append_str(&mut out, "&lang=en");
    from_chars(out.as_slice())
}

/// `&amp;`, `&lt;`, `&gt;`, `&quot;`, `&#39;` and `&#x27;` decoded, in that
/// order.
pub open spec fn html_unescape_spec(s: Seq<char>) -> Seq<char> {
    replace(
        replace(
            replace(replace(replace(replace(s, "&amp;"@, "&"@), "&lt;"@, "<"@), "&gt;"@, ">"@), "&quot;"@, "\""@),
            "&#39;"@,
            "'"@,
        ),
        "&#x27;"@,
        "'"@,
    )
}

pub fn html_unescape(s: &[char]) -> (r: Vec<char>)
    ensures
        r@ == html_unescape_spec(s@),
{
    proof {
        reveal_strlit("&amp;");
        reveal_strlit("&lt;");
        reveal_strlit("&gt;");
        reveal_strlit("&quot;");
        reveal_strlit("&#39;");
        reveal_strlit("&#x27;");
    }
    let a = replace_str(s, "&amp;", "&");
    let b = replace_str(a.as_slice(), "&lt;", "<");
    let c = replace_str(b.as_slice(), "&gt;", ">");
    let d = replace_str(c.as_slice(), "&quot;", "\"");
    let e = replace_str(d.as_slice(), "&#39;", "'");
    replace_str(e.as_slice(), "&#x27;", "'")
}

/// A tweet's text: the long-form note's text when there is one.
pub open spec fn tweet_text_spec(item: Option<Json>) -> Seq<char> {
    match jget_str(jget(item, "note_tweet"@), "text"@) {
        Some(t) => t,
        None => jget_str_or_empty(item, "text"@),
    }
}

fn tweet_text(item: Option<&Json>) -> (r: Vec<char>)
    ensures
        r@ == tweet_text_spec(od(item)),
{
    match get_str(get(item, "note_tweet"), "text") {
        Some(t) => t,
        None => get_str_or_empty(item, "text"),
    }
}

/// The text with each `t.co` link of `urls` replaced by its expansion.
pub open spec fn expand_links(text: Seq<char>, urls: Seq<Json>) -> Seq<char>
    decreases urls.len(),
{
    if urls.len() == 0 {
        text
    } else {
        let before = expand_links(text, urls.drop_last());
        let u = Some(urls.last());
        match (jget_str(u, "url"@), jget_str(u, "expanded_url"@)) {
            (Some(t), Some(e)) => replace_all(before, t, e),
            _ => before,
        }
    }
}

/// The text with each media link of `media` removed.
pub open spec fn drop_media_links(text: Seq<char>, media: Seq<Json>) -> Seq<char>
    decreases media.len(),
{
    if media.len() == 0 {
        text
    } else {
        let before = drop_media_links(text, media.drop_last());
        match jget_str(Some(media.last()), "url"@) {
            Some(t) => replace_all(before, t, seq![]),
            None => before,
        }
    }
}

pub open spec fn opt_seq(o: Option<Seq<Json>>) -> Seq<Json> {
    match o {
        Some(s) => s,
        None => seq![],
    }
}

/// A tweet's text with its short links expanded, its media links removed,
/// surrounding whitespace trimmed and HTML entities decoded.
pub open spec fn substitute_spec(text: Seq<char>, item: Option<Json>) -> Seq<char> {
    let entities = jget(item, "entities"@);
    let expanded = expand_links(text, opt_seq(jarr(jget(entities, "urls"@))));
    let cleaned = drop_media_links(expanded, opt_seq(jarr(jget(entities, "media"@))));
    html_unescape_spec(trim(cleaned))
}

fn expand_links_exec(text: Vec<char>, urls: Option<&Vec<Json>>) -> (r: Vec<char>)
    ensures
        r@ == expand_links(text@, match urls {
            Some(v) => v@,
            None => Seq::<Json>::empty(),
        }),
{
    let urls = match urls {
        Some(u) => u,
        None => return text,
    };
    let mut result = text;
    let ghost t0 = result@;
    let mut i: usize = 0;
    while i < urls.len()
        invariant
            i <= urls@.len(),
            result@ == expand_links(t0, urls@.take(i as int)),
        decreases urls@.len() - i,
    {
        let u = &urls[i];
        assert(urls@.take(i + 1).drop_last() =~= urls@.take(i as int));
        match (get_str(Some(u), "url"), get_str(Some(u), "expanded_url")) {
            (Some(t), Some(e)) => {
                result = replace_all_exec(result.as_slice(), t.as_slice(), e.as_slice());
            },
            _ => {},
        }
        i += 1;
    }
    assert(urls@.take(urls@.len() as int) =~= urls@);
    result
}

fn drop_media_links_exec(text: Vec<char>, media: Option<&Vec<Json>>) -> (r: Vec<char>)
    ensures
        r@ == drop_media_links(text@, match media {
            Some(v) => v@,
            None => Seq::<Json>::empty(),
        }),
{
    let media = match media {
        Some(m) => m,
        None => return text,
    };
    let mut result = text;
    let ghost t0 = result@;
    let empty: Vec<char> = Vec::new();
    let mut i: usize = 0;
    while i < media.len()
        invariant
            i <= media@.len(),
            empty@ == Seq::<char>::empty(),
            result@ == drop_media_links(t0, media@.take(i as int)),
        decreases media@.len() - i,
    {
        assert(media@.take(i + 1).drop_last() =~= media@.take(i as int));
        match get_str(Some(&media[i]), "url") {
            Some(t) => {
                result = replace_all_exec(result.as_slice(), t.as_slice(), empty.as_slice());
            },
            None => {},
        }
        i += 1;
    }
    assert(media@.take(media@.len() as int) =~= media@);
    result
}

/// Short links expanded, media links removed, trimmed and unescaped (see
/// `substitute_spec`).
pub fn substitute_tco_urls(text: &[char], item: Option<&Json>) -> (r: Vec<char>)
    ensures
        r@ == substitute_spec(text@, od(item)),
{
    let entities = get(item, "entities");
    let expanded = expand_links_exec(vstd::slice::slice_to_vec(text), as_array(get(entities, "urls")));
    let cleaned = drop_media_links_exec(expanded, as_array(get(entities, "media")));
    html_unescape(trim_exec(cleaned.as_slice()))
}

/// A variant that may be picked: an MP4 with a URL that is not HEVC.
pub open spec fn variant_usable(v: Json) -> bool {
    jget_str_or_empty(Some(v), "content_type"@) == "video/mp4"@ && jget_str_or_empty(Some(v), "url"@).len() > 0
        && !contains(jget_str_or_empty(Some(v), "url"@), "/hevc/"@)
}

pub open spec fn variant_bitrate(v: Json) -> int {
    match jint(jget(Some(v), "bitrate"@)) {
        Some(b) => b as int,
        None => 0,
    }
}

/// The highest bitrate seen so far (-1 before any) and the URL of the
/// first usable variant that has it.
pub open spec fn best_variant(vs: Seq<Json>) -> (int, Option<Seq<char>>)
    decreases vs.len(),
{
    if vs.len() == 0 {
        (-1, None)
    } else {
        let (b, u) = best_variant(vs.drop_last());
        let v = vs.last();
        if variant_usable(v) && variant_bitrate(v) > b {
            (variant_bitrate(v), Some(jget_str_or_empty(Some(v), "url"@)))
        } else {
            (b, u)
        }
    }
}

/// A URL without its `?tag=` suffix.
pub open spec fn strip_tag(u: Seq<char>) -> Seq<char> {
    match find(u, "?tag="@) {
        Some(i) => u.take(i),
        None => u,
    }
}

/// The best MP4 of a video's variants, without its `?tag=` suffix.
pub open spec fn best_video_spec(detail: Option<Json>) -> Option<Seq<char>> {
    match jarr(jget(jget(detail, "video_info"@), "variants"@)) {
        None => None,
        Some(vs) => match best_variant(vs).1 {
            Some(u) => Some(strip_tag(u)),
            None => None,
        },
    }
}

pub fn pick_best_video_variant(detail: Option<&Json>) -> (r: Option<Vec<char>>)
    ensures
        match r {
            Some(u) => best_video_spec(od(detail)) == Some(u@),
            None => best_video_spec(od(detail)) is None,
        },
{
    let vs = match as_array(get(get(detail, "video_info"), "variants")) {
        Some(v) => v,
        None => return None,
    };
    let mut best_bitrate: i64 = -1;
    let mut best_url: Option<Vec<char>> = None;
    let mut i: usize = 0;
    while i < vs.len()
        invariant
            i <= vs@.len(),
            best_variant(vs@.take(i as int)).0 == best_bitrate as int,
            best_variant(vs@.take(i as int)).1 == match best_url {
                Some(u) => Some(u@),
                None => None::<Seq<char>>,
            },
        decreases vs@.len() - i,
    {
        let v = &vs[i];
        assert(vs@.take(i + 1).drop_last() =~= vs@.take(i as int));
        assert(vs@.take(i + 1).last() == *v);
        let ct = get_str_or_empty(Some(v), "content_type");
        let url = get_str_or_empty(Some(v), "url");
        let mp4 = to_chars("video/mp4");
        let usable = crate::text::eq_exec(ct.as_slice(), mp4.as_slice()) && url.len() > 0 && !contains_str(
            url.as_slice(),
            "/hevc/",
        );
        let bitrate: i64 = match as_i64(get(Some(v), "bitrate")) {
            Some(b) => b,
            None => 0,
        };
        if usable && bitrate > best_bitrate {
            best_bitrate = bitrate;
            best_url = Some(url);
        }
        i += 1;
    }
    assert(vs@.take(vs@.len() as int) =~= vs@);
    match best_url {
        Some(u) => {
            let tag = to_chars("?tag=");
            match find_exec(u.as_slice(), tag.as_slice()) {
                Some(k) => {
                    proof {
                        crate::text::lemma_find(u@, tag@);
                    }
                    let t = vstd::slice::slice_subrange(u.as_slice(), 0, k);
                    assert(t@ =~= u@.take(k as int));
                    Some(vstd::slice::slice_to_vec(t))
                },
                None => Some(u),
            }
        },
        None => None,
    }
}

pub open spec fn card_keys() -> Seq<Seq<char>> {
    seq![
        "photo_image_full_size_original"@,
        "summary_photo_image_original"@,
        "photo_image_full_size_large"@,
        "summary_photo_image_large"@,
        "thumbnail_image_original"@,
        "thumbnail_image_large"@,
    ]
}

pub open spec fn card_image_at(bindings: Option<Json>, key: Seq<char>) -> Option<Seq<char>> {
    jget_str(jget(jget(bindings, key), "image_value"@), "url"@)
}

/// The first of the keys that holds an image URL.
pub open spec fn first_card_image(bindings: Option<Json>, keys: Seq<Seq<char>>) -> Option<Seq<char>>
    decreases keys.len(),
{
    if keys.len() == 0 {
        None
    } else {
        match card_image_at(bindings, keys[0]) {
            Some(u) => Some(u),
            None => first_card_image(bindings, keys.drop_first()),
        }
    }
}

/// The image of a link card, by the card's preferred keys.
pub open spec fn card_image_spec(item: Option<Json>) -> Option<Seq<char>> {
    first_card_image(jget(jget(item, "card"@), "binding_values"@), card_keys())
}

pub fn extract_card_image(item: Option<&Json>) -> (r: Option<Vec<char>>)
    ensures
        match r {
            Some(u) => card_image_spec(od(item)) == Some(u@),
            None => card_image_spec(od(item)) is None,
        },
{
    let bindings = get(get(item, "card"), "binding_values");
    let keys = vec![
        "photo_image_full_size_original",
        "summary_photo_image_original",
        "photo_image_full_size_large",
        "summary_photo_image_large",
        "thumbnail_image_original",
        "thumbnail_image_large",
    ];
    assert(str_views(keys@) =~= card_keys());
    assert(card_keys().skip(0) =~= card_keys());
    let mut i: usize = 0;
    while i < keys.len()
        invariant
            i <= keys@.len(),
            str_views(keys@) == card_keys(),
            od(bindings) == jget(jget(od(item), "card"@), "binding_values"@),
            first_card_image(od(bindings), card_keys()) == first_card_image(od(bindings), card_keys().skip(
                i as int,
            )),
        decreases keys@.len() - i,
    {
        assert(card_keys().skip(i as int)[0] == keys@[i as int]@);
        assert(card_keys().skip(i as int).drop_first() =~= card_keys().skip(i + 1));
        if let Some(u) = get_str(get(get(bindings, keys[i]), "image_value"), "url") {
            return Some(u);
        }
        i += 1;
    }
    assert(card_keys().skip(i as int) =~= Seq::<Seq<char>>::empty());
    None
}

/// A media item of a tweet: its URL and whether it is a GIF.
pub struct TwitterMedia {
    pub url: String,
    pub is_gif: bool,
}

pub open spec fn media_view(m: TwitterMedia) -> (Seq<char>, bool) {
    (m.url@, m.is_gif)
}

pub open spec fn media_views(ms: Seq<TwitterMedia>) -> Seq<(Seq<char>, bool)> {
    ms.map_values(|m: TwitterMedia| media_view(m))
}

/// The media item of one `mediaDetails` entry, if it has one: videos and
/// GIFs by their best MP4 (or their poster), photos at original size.
pub open spec fn detail_media(d: Json) -> Option<(Seq<char>, bool)> {
    let kind = jget_str_or_empty(Some(d), "type"@);
    if kind == "video"@ || kind == "animated_gif"@ {
        let url = match best_video_spec(Some(d)) {
            Some(u) => Some(u),
            None => jget_str(Some(d), "media_url_https"@),
        };
        match url {
            Some(u) => Some((u, kind == "animated_gif"@)),
            None => None,
        }
    } else {
        match jget_str(Some(d), "media_url_https"@) {
            Some(u) => Some((u + "?name=orig"@, false)),
            None => None,
        }
    }
}

pub open spec fn details_media(ds: Seq<Json>) -> Seq<(Seq<char>, bool)>
    decreases ds.len(),
{
    if ds.len() == 0 {
        seq![]
    } else {
        let before = details_media(ds.drop_last());
        match detail_media(ds.last()) {
            Some(m) => before.push(m),
            None => before,
        }
    }
}

/// A tweet's media: those of its `mediaDetails`, or else its card image.
pub open spec fn extract_media_spec(item: Option<Json>) -> Seq<(Seq<char>, bool)> {
    let ms = details_media(opt_seq(jarr(jget(item, "mediaDetails"@))));
    if ms.len() == 0 {
        match card_image_spec(item) {
            Some(u) => seq![(u, false)],
            None => ms,
        }
    } else {
        ms
    }
}

fn detail_media_exec(d: &Json) -> (r: Option<TwitterMedia>)
    ensures
        match r {
            Some(m) => detail_media(*d) == Some(media_view(m)),
            None => detail_media(*d) is None,
        },
{
    let kind = get_str_or_empty(Some(d), "type");
    let video = to_chars("video");
    let gif = to_chars("animated_gif");
    let is_gif = crate::text::eq_exec(kind.as_slice(), gif.as_slice());
    if crate::text::eq_exec(kind.as_slice(), video.as_slice()) || is_gif {
        let url = match pick_best_video_variant(Some(d)) {
            Some(u) => Some(u),
            None => get_str(Some(d), "media_url_https"),
        };
        match url {
            Some(u) => Some(TwitterMedia { url: from_chars(u.as_slice()), is_gif }),
            None => None,
        }
    } else {
        match get_str(Some(d), "media_url_https") {
            Some(u) => {
                let mut v = u;
                append_str(&mut v, "?name=orig");
                Some(TwitterMedia { url: from_chars(v.as_slice()), is_gif: false })
            },
            None => None,
        }
    }
}

pub fn extract_media(item: Option<&Json>) -> (r: Vec<TwitterMedia>)
    ensures
        media_views(r@) == extract_media_spec(od(item)),
{
    let mut media: Vec<TwitterMedia> = Vec::new();
    let ghost ds = opt_seq(jarr(jget(od(item), "mediaDetails"@)));
    if let Some(details) = as_array(get(item, "mediaDetails")) {
        let mut i: usize = 0;
        while i < details.len()
            invariant
                i <= details@.len(),
                ds == details@,
                media_views(media@) == details_media(details@.take(i as int)),
            decreases details@.len() - i,
        {
            assert(details@.take(i + 1).drop_last() =~= details@.take(i as int));
            assert(details@.take(i + 1).last() == details@[i as int]);
            if let Some(m) = detail_media_exec(&details[i]) {
                let ghost before = media@;
                media.push(m);
                assert(media_views(media@) =~= media_views(before).push(media_view(m)));
            }
            i += 1;
        }
        assert(details@.take(details@.len() as int) =~= details@);
    } else {
        assert(media_views(media@) =~= details_media(ds));
    }
    if media.len() == 0 {
        if let Some(u) = extract_card_image(item) {
            media.push(TwitterMedia { url: from_chars(u.as_slice()), is_gif: false });
            assert(media_views(media@) =~= seq![(u@, false)]);
        }
    }
    media
}

/// A tweet as shown: author, handle, text, media, the account it replies
/// to, and the quoted tweet's author, handle and text.
pub struct TwitterPost {
    pub author: String,
    pub username: String,
    pub text: String,
    pub media: Vec<TwitterMedia>,
    pub replying_to: Option<String>,
    pub quote_author: Option<String>,
    pub quote_username: Option<String>,
    pub quote_text: Option<String>,
}

pub struct TwitterPostView {
    pub author: Seq<char>,
    pub username: Seq<char>,
    pub text: Seq<char>,
    pub media: Seq<(Seq<char>, bool)>,
    pub replying_to: Option<Seq<char>>,
    pub quote_author: Option<Seq<char>>,
    pub quote_username: Option<Seq<char>>,
    pub quote_text: Option<Seq<char>>,
}

impl TwitterPost {
    pub open spec fn view(&self) -> TwitterPostView {
        TwitterPostView {
            author: self.author@,
            username: self.username@,
            text: self.text@,
            media: media_views(self.media@),
            replying_to: crate::git_diff::opt_view(self.replying_to),
            quote_author: crate::git_diff::opt_view(self.quote_author),
            quote_username: crate::git_diff::opt_view(self.quote_username),
            quote_text: crate::git_diff::opt_view(self.quote_text),
        }
    }
}

pub open spec fn quote_parts(q: Option<Json>) -> (Option<Seq<char>>, Option<Seq<char>>, Option<Seq<char>>) {
    match q {
        None => (None, None, None),
        Some(_) => {
            let a = jget_str_or_empty(jget(q, "user"@), "name"@);
            let u = jget_str_or_empty(jget(q, "user"@), "screen_name"@);
            let t = substitute_spec(tweet_text_spec(q), q);
            if a.len() == 0 && u.len() == 0 && t.len() == 0 {
                (None, None, None)
            } else {
                (Some(a), Some(u), Some(t))
            }
        },
    }
}

/// A tweet read from a syndication response (see the functions above for
/// each field); the quoted tweet's media follow the tweet's own.
pub open spec fn parse_tweet_spec(item: Json) -> TwitterPostView {
    let it = Some(item);
    let q = jget(it, "quoted_tweet"@);
    TwitterPostView {
        author: jget_str_or_empty(jget(it, "user"@), "name"@),
        username: jget_str_or_empty(jget(it, "user"@), "screen_name"@),
        text: substitute_spec(tweet_text_spec(it), it),
        media: extract_media_spec(it) + match q {
            Some(_) => extract_media_spec(q),
            None => seq![],
        },
        replying_to: jget_str(it, "in_reply_to_screen_name"@),
        quote_author: quote_parts(q).0,
        quote_username: quote_parts(q).1,
        quote_text: quote_parts(q).2,
    }
}

fn some_string(v: Vec<char>) -> (r: Option<String>)
    ensures
        crate::git_diff::opt_view(r) == Some(v@),
{
    Some(from_chars(v.as_slice()))
}

pub fn parse_tweet(item: &Json) -> (r: TwitterPost)
    ensures
        r.view() == parse_tweet_spec(*item),
{
    let it = Some(item);
    let user = get(it, "user");
    let author = get_str_or_empty(user, "name");
    let username = get_str_or_empty(user, "screen_name");
    let raw = tweet_text(it);
    let text = substitute_tco_urls(raw.as_slice(), it);
    let replying_to = match get_str(it, "in_reply_to_screen_name") {
        Some(s) => Some(from_chars(s.as_slice())),
        None => None,
    };
    let mut media = extract_media(it);
    let q = get(it, "quoted_tweet");
    let (qa, qu, qt): (Option<String>, Option<String>, Option<String>) = match q {
        Some(quoted) => {
            let quser = get(Some(quoted), "user");
            let qauthor = get_str_or_empty(quser, "name");
            let qusername = get_str_or_empty(quser, "screen_name");
            let qraw = tweet_text(Some(quoted));
            let qtext = substitute_tco_urls(qraw.as_slice(), Some(quoted));
            let mut extra = extract_media(Some(quoted));
            let ghost before = media@;
            let ghost added = extra@;
            media.append(&mut extra);
            assert(media_views(media@) =~= media_views(before) + media_views(added));
            if qauthor.len() == 0 && qusername.len() == 0 && qtext.len() == 0 {
                (None, None, None)
            } else {
                (some_string(qauthor), some_string(qusername), some_string(qtext))
            }
        },
        None => {
            assert(media_views(media@) =~= media_views(media@) + Seq::<(Seq<char>, bool)>::empty());
            (None, None, None)
        },
    };
    TwitterPost {
        author: from_chars(author.as_slice()),
        username: from_chars(username.as_slice()),
        text: from_chars(text.as_slice()),
        media,
        replying_to,
        quote_author: qa,
        quote_username: qu,
        quote_text: qt,
    }
}

/// What one syndication response gives: a tweet, a refusal, or nothing
/// (an empty object, which is worth asking again for).
pub enum SyndicationReply {
    Post(TwitterPost),
    Failed(TwitterError),
    Empty,
}

pub open spec fn syndication_kind(j: Json) -> Option<TwitterError> {
    let t = jget_str_or_empty(Some(j), "__typename"@);
    if t == "TweetTombstone"@ {
        Some(TwitterError::Deleted)
    } else if t == "TweetUnavailable"@ {
        Some(TwitterError::Unavailable)
    } else {
        None
    }
}

/// Reads a syndication response: a tombstone is a deleted tweet, an
/// unavailable marker a private or restricted one, an empty object nothing,
/// and anything else a tweet.
pub fn read_syndication(j: &Json) -> (r: SyndicationReply)
    ensures
        match r {
            SyndicationReply::Failed(e) => syndication_kind(*j) == Some(e),
            SyndicationReply::Empty => syndication_kind(*j) is None && jget_object_empty(*j),
            SyndicationReply::Post(p) => syndication_kind(*j) is None && !jget_object_empty(*j) && p.view()
                == parse_tweet_spec(*j),
        },
{
    let t = get_str_or_empty(Some(j), "__typename");
    let tomb = to_chars("TweetTombstone");
    let unavail = to_chars("TweetUnavailable");
    if crate::text::eq_exec(t.as_slice(), tomb.as_slice()) {
        return SyndicationReply::Failed(TwitterError::Deleted);
    }
    if crate::text::eq_exec(t.as_slice(), unavail.as_slice()) {
        return SyndicationReply::Failed(TwitterError::Unavailable);
    }
    let empty = match j {
        Json::Object(ms) => ms.len() == 0,
        _ => false,
    };
    if empty {
        return SyndicationReply::Empty;
    }
    SyndicationReply::Post(parse_tweet(j))
}

/// Whether the value is an object without members.
pub open spec fn jget_object_empty(j: Json) -> bool {
    match j {
        Json::Object(ms) => ms@.len() == 0,
        _ => false,
    }
}

} // verus!
