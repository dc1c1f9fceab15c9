//! Instagram posts: links, the JSON of the GraphQL and mobile APIs, and the
//! pages of the mirror sites that are read slide by slide.
use vstd::prelude::*;
use crate::text::{
    append, append_str, before_first, before_first_exec, contains, contains_str, eq_exec, from_chars, lower,
    lower_exec, starts_with, starts_with_str, strip_prefix, strip_prefix_exec, to_chars, trim, trim_exec,
};
use crate::json::{
    Json, as_array, as_str, first, get, get_str, get_str_or_empty, jarr, jfirst, jget, jget_str,
    jget_str_or_empty, jstr, od,
};
use crate::num::{decimal, decimal_exec};
use crate::pattern::{captures, group, group_exec, regex_captures};
use crate::twitter::{html_unescape, html_unescape_spec, opt_seq};
use crate::git_diff::opt_view;

verus! {

/// A post as shown: author, handle, caption and media URLs.
pub struct InstagramPost {
    pub author: String,
    pub username: String,
    pub text: String,
    pub media: Vec<String>,
}

pub struct InstagramPostView {
    pub author: Seq<char>,
    pub username: Seq<char>,
    pub text: Seq<char>,
    pub media: Seq<Seq<char>>,
}

impl InstagramPost {
    pub open spec fn view(&self) -> InstagramPostView {
        InstagramPostView {
            author: self.author@,
            username: self.username@,
            text: self.text@,
            media: crate::shared::views(self.media@),
        }
    }
}

/// The best URL of a media item: its video, else its first video version,
/// else its first image candidate, else its display image.
pub open spec fn best_media_url_spec(item: Option<Json>) -> Option<Seq<char>> {
    match jget_str(item, "video_url"@) {
        Some(u) => Some(u),
        None => match jget_str(jfirst(jarr_value(jget(item, "video_versions"@))), "url"@) {
            Some(u) => Some(u),
            None => match jget_str(jfirst(jarr_value(jget(jget(item, "image_versions2"@), "candidates"@))), "url"@) {
                Some(u) => Some(u),
                None => jget_str(item, "display_url"@),
            },
        },
    }
}

/// The value when it is an array (`and_then(as_array)` before `first()`).
pub open spec fn jarr_value(j: Option<Json>) -> Option<Json> {
    match j {
        Some(Json::Array(v)) => j,
        _ => None,
    }
}

pub fn best_media_url(item: Option<&Json>) -> (r: Option<Vec<char>>)
    ensures
        match r {
            Some(u) => best_media_url_spec(od(item)) == Some(u@),
            None => best_media_url_spec(od(item)) is None,
        },
{
    if let Some(u) = get_str(item, "video_url") {
        return Some(u);
    }
    if let Some(u) = get_str(first(get(item, "video_versions")), "url") {
        return Some(u);
    }
    if let Some(u) = get_str(first(get(get(item, "image_versions2"), "candidates")), "url") {
        return Some(u);
    }
    get_str(item, "display_url")
}

/// `a.or_else(|| b)` on values.
pub open spec fn or_value(a: Option<Json>, b: Option<Json>) -> Option<Json> {
    match a {
        Some(x) => Some(x),
        None => b,
    }
}

pub open spec fn str_or_empty(s: Option<Seq<char>>) -> Seq<char> {
    match s {
        Some(x) => x,
        None => seq![],
    }
}

pub open spec fn media_item_username(item: Option<Json>) -> Seq<char> {
    str_or_empty(jstr(or_value(jget(jget(item, "owner"@), "username"@), jget(jget(item, "user"@), "username"@))))
}

pub open spec fn media_item_caption(item: Option<Json>) -> Seq<char> {
    match jget_str(jget(jfirst(jget(jget(item, "edge_media_to_caption"@), "edges"@)), "node"@), "text"@) {
        Some(t) => t,
        None => jget_str_or_empty(jget(item, "caption"@), "text"@),
    }
}

/// The URLs of sidecar children that have one, in order.
pub open spec fn sidecar_urls(edges: Seq<Json>) -> Seq<Seq<char>>
    decreases edges.len(),
{
    if edges.len() == 0 {
        seq![]
    } else {
        let before = sidecar_urls(edges.drop_last());
        match jget(Some(edges.last()), "node"@) {
            Some(node) => match best_media_url_spec(Some(node)) {
                Some(u) => before.push(u),
                None => before,
            },
            None => before,
        }
    }
}

/// The best URLs of carousel children that have one, in order.
pub open spec fn carousel_urls(children: Seq<Json>) -> Seq<Seq<char>>
    decreases children.len(),
{
    if children.len() == 0 {
        seq![]
    } else {
        let before = carousel_urls(children.drop_last());
        match best_media_url_spec(Some(children.last())) {
            Some(u) => before.push(u),
            None => before,
        }
    }
}

/// The media of a GraphQL media item: its sidecar children, else its
/// carousel children, else its video or display URL, else its best URL.
pub open spec fn media_item_media(item: Option<Json>) -> Seq<Seq<char>> {
    match jarr(jget(jget(item, "edge_sidecar_to_children"@), "edges"@)) {
        Some(edges) => sidecar_urls(edges),
        None => match jarr(jget(item, "carousel_media"@)) {
            Some(children) => carousel_urls(children),
            None => match jstr(or_value(jget(item, "video_url"@), jget(item, "display_url"@))) {
                Some(u) => seq![u],
                None => match best_media_url_spec(item) {
                    Some(u) => seq![u],
                    None => seq![],
                },
            },
        },
    }
}

pub open spec fn media_item_typename(item: Option<Json>) -> Seq<char> {
    jget_str_or_empty(item, "__typename"@)
}

pub open spec fn media_item_is_carousel(item: Option<Json>) -> bool {
    let t = media_item_typename(item);
    t == "GraphSidecar"@ || t == "XDTGraphSidecar"@ || jget(item, "edge_sidecar_to_children"@) is Some || jget(
        item,
        "carousel_media"@,
    ) is Some
}

/// A post from a GraphQL media item; an error when it has no media, or is a
/// carousel with fewer than two.
pub open spec fn parse_media_item_spec(item: Option<Json>) -> Result<InstagramPostView, Seq<char>> {
    let media = media_item_media(item);
    if media.len() == 0 {
        Err("No media found in post"@)
    } else if media_item_is_carousel(item) && media.len() < 2 {
        Err("Carousel parse incomplete: typename="@ + media_item_typename(item) + ", got "@ + decimal(
            media.len(),
        ) + " item(s)"@)
    } else {
        Ok(
            InstagramPostView {
                author: media_item_username(item),
                username: media_item_username(item),
                text: media_item_caption(item),
                media,
            },
        )
    }
}

fn push_url(media: &mut Vec<String>, u: Vec<char>)
    ensures
        crate::shared::views(final(media)@) == crate::shared::views(old(media)@).push(u@),
{
    let ghost before = media@;
    media.push(from_chars(u.as_slice()));
    assert(crate::shared::views(media@) =~= crate::shared::views(before).push(u@));
}

fn sidecar_urls_exec(edges: &Vec<Json>) -> (r: Vec<String>)
    ensures
        crate::shared::views(r@) == sidecar_urls(edges@),
{
    let mut media: Vec<String> = Vec::new();
    let mut i: usize = 0;
    while i < edges.len()
        invariant
            i <= edges@.len(),
            crate::shared::views(media@) == sidecar_urls(edges@.take(i as int)),
        decreases edges@.len() - i,
    {
        assert(edges@.take(i + 1).drop_last() =~= edges@.take(i as int));
        assert(edges@.take(i + 1).last() == edges@[i as int]);
        if let Some(node) = get(Some(&edges[i]), "node") {
            if let Some(u) = best_media_url(Some(node)) {
                push_url(&mut media, u);
            }
        }
        i += 1;
    }
    assert(edges@.take(edges@.len() as int) =~= edges@);
    media
}

fn carousel_urls_exec(children: &Vec<Json>) -> (r: Vec<String>)
    ensures
        crate::shared::views(r@) == carousel_urls(children@),
{
    let mut media: Vec<String> = Vec::new();
    let mut i: usize = 0;
    while i < children.len()
        invariant
            i <= children@.len(),
            crate::shared::views(media@) == carousel_urls(children@.take(i as int)),
        decreases children@.len() - i,
    {
        assert(children@.take(i + 1).drop_last() =~= children@.take(i as int));
        assert(children@.take(i + 1).last() == children@[i as int]);
        if let Some(u) = best_media_url(Some(&children[i])) {
            push_url(&mut media, u);
        }
        i += 1;
    }
    assert(children@.take(children@.len() as int) =~= children@);
    media
}

fn or_value_exec<'a>(a: Option<&'a Json>, b: Option<&'a Json>) -> (r: Option<&'a Json>)
    ensures
        od(r) == or_value(od(a), od(b)),
{
    match a {
        Some(x) => Some(x),
        None => b,
    }
}

fn opt_chars_or_empty(s: Option<&String>) -> (r: Vec<char>)
    ensures
        r@ == str_or_empty(match s {
            Some(x) => Some(x@),
            None => None,
        }),
{
    match s {
        Some(x) => to_chars(x.as_str()),
        None => Vec::new(),
    }
}

fn media_item_media_exec(item: Option<&Json>) -> (r: Vec<String>)
    ensures
        crate::shared::views(r@) == media_item_media(od(item)),
{
    if let Some(edges) = as_array(get(get(item, "edge_sidecar_to_children"), "edges")) {
        return sidecar_urls_exec(edges);
    }
    if let Some(children) = as_array(get(item, "carousel_media")) {
        return carousel_urls_exec(children);
    }
    let mut media: Vec<String> = Vec::new();
    if let Some(u) = as_str(or_value_exec(get(item, "video_url"), get(item, "display_url"))) {
        push_url(&mut media, to_chars(u.as_str()));
    } else if let Some(u) = best_media_url(item) {
        push_url(&mut media, u);
    }
    media
}

/// A post from a GraphQL media item (see `parse_media_item_spec`).
pub fn parse_media_item(item: Option<&Json>) -> (r: Result<InstagramPost, String>)
    ensures
        match r {
            Ok(p) => parse_media_item_spec(od(item)) == Ok::<InstagramPostView, Seq<char>>(p.view()),
            Err(e) => parse_media_item_spec(od(item)) == Err::<InstagramPostView, Seq<char>>(e@),
        },
{
    let username = opt_chars_or_empty(
        as_str(or_value_exec(get(get(item, "owner"), "username"), get(get(item, "user"), "username"))),
    );
    let caption = match get_str(get(first(get(get(item, "edge_media_to_caption"), "edges")), "node"), "text") {
        Some(t) => t,
        None => get_str_or_empty(get(item, "caption"), "text"),
    };
    let typename = get_str_or_empty(item, "__typename");
    let s1 = to_chars("GraphSidecar");
    let s2 = to_chars("XDTGraphSidecar");
    let is_carousel = eq_exec(typename.as_slice(), s1.as_slice()) || eq_exec(typename.as_slice(), s2.as_slice())
        || get(item, "edge_sidecar_to_children").is_some() || get(item, "carousel_media").is_some();
    let media = media_item_media_exec(item);
    if media.len() == 0 {
        return Err("No media found in post".to_string());
    }
    if is_carousel && media.len() < 2 {
        let mut m = to_chars("Carousel parse incomplete: typename=");
        append(&mut m, typename.as_slice());
        append_str(&mut m, ", got ");
        let n = decimal_exec(media.len() as u64);
        append(&mut m, n.as_slice());
        append_str(&mut m, " item(s)");
        return Err(from_chars(m.as_slice()));
    }
    Ok(InstagramPost {
        author: from_chars(username.as_slice()),
        username: from_chars(username.as_slice()),
        text: from_chars(caption.as_slice()),
        media,
    })
}

/// The media item of a GraphQL response.
pub open spec fn graphql_item(json: Json) -> Option<Json> {
    let data = jget(Some(json), "data"@);
    or_value(jget(data, "xdt_shortcode_media"@), jget(data, "shortcode_media"@))
}

pub open spec fn parse_graphql_spec(json: Json) -> Result<InstagramPostView, Seq<char>> {
    if jget(Some(json), "data"@) is None {
        Err("No data in GraphQL response"@)
    } else {
        match graphql_item(json) {
            None => Err("No media data in GraphQL response"@),
            Some(item) => parse_media_item_spec(Some(item)),
        }
    }
}

/// A post from a GraphQL response.
pub fn parse_graphql_response(json: &Json) -> (r: Result<InstagramPost, String>)
    ensures
        match r {
            Ok(p) => parse_graphql_spec(*json) == Ok::<InstagramPostView, Seq<char>>(p.view()),
            Err(e) => parse_graphql_spec(*json) == Err::<InstagramPostView, Seq<char>>(e@),
        },
{
    let data = match get(Some(json), "data") {
        Some(d) => d,
        None => return Err("No data in GraphQL response".to_string()),
    };
    match or_value_exec(get(Some(data), "xdt_shortcode_media"), get(Some(data), "shortcode_media")) {
        None => Err("No media data in GraphQL response".to_string()),
        Some(item) => parse_media_item(Some(item)),
    }
}

pub open spec fn mobile_is_carousel(item: Option<Json>) -> bool {
    jget_str_or_empty(item, "product_type"@) == "carousel_container"@ || jget(item, "carousel_media"@) is Some
}

/// The media of a mobile API item: its carousel children, else its best URL.
pub open spec fn mobile_media(item: Option<Json>) -> Seq<Seq<char>> {
    match jarr(jget(item, "carousel_media"@)) {
        Some(children) => carousel_urls(children),
        None => match best_media_url_spec(item) {
            Some(u) => seq![u],
            None => seq![],
        },
    }
}

/// A post from a mobile API item: the author is the full name, or the
/// handle when there is none.
pub open spec fn parse_mobile_spec(item: Option<Json>) -> Result<InstagramPostView, Seq<char>> {
    let media = mobile_media(item);
    let username = jget_str_or_empty(jget(item, "user"@), "username"@);
    if media.len() == 0 {
        Err("No media found in post"@)
    } else if mobile_is_carousel(item) && media.len() < 2 {
        Err("Mobile carousel parse incomplete: got "@ + decimal(media.len()) + " item(s)"@)
    } else {
        Ok(
            InstagramPostView {
                author: match jget_str(jget(item, "user"@), "full_name"@) {
                    Some(n) => n,
                    None => username,
                },
                username,
                text: jget_str_or_empty(jget(item, "caption"@), "text"@),
                media,
            },
        )
    }
}

pub fn parse_mobile_response(item: Option<&Json>) -> (r: Result<InstagramPost, String>)
    ensures
        match r {
            Ok(p) => parse_mobile_spec(od(item)) == Ok::<InstagramPostView, Seq<char>>(p.view()),
            Err(e) => parse_mobile_spec(od(item)) == Err::<InstagramPostView, Seq<char>>(e@),
        },
{
    let user = get(item, "user");
    let username = get_str_or_empty(user, "username");
    let full_name = match get_str(user, "full_name") {
        Some(n) => n,
        None => get_str_or_empty(user, "username"),
    };
    let caption = get_str_or_empty(get(item, "caption"), "text");
    let pt = get_str_or_empty(item, "product_type");
    let cc = to_chars("carousel_container");
    let is_carousel = eq_exec(pt.as_slice(), cc.as_slice()) || get(item, "carousel_media").is_some();
    let media = match as_array(get(item, "carousel_media")) {
        Some(children) => carousel_urls_exec(children),
        None => {
            let mut m: Vec<String> = Vec::new();
            if let Some(u) = best_media_url(item) {
                push_url(&mut m, u);
            }
            m
        },
    };
    assert(crate::shared::views(media@) == mobile_media(od(item)));
    assert(is_carousel == mobile_is_carousel(od(item)));
    if media.len() == 0 {
        return Err("No media found in post".to_string());
    }
    if is_carousel && media.len() < 2 {
        let mut m = to_chars("Mobile carousel parse incomplete: got ");
        let n = decimal_exec(media.len() as u64);
        append(&mut m, n.as_slice());
        append_str(&mut m, " item(s)");
        return Err(from_chars(m.as_slice()));
    }
    Ok(InstagramPost {
        author: from_chars(full_name.as_slice()),
        username: from_chars(username.as_slice()),
        text: from_chars(caption.as_slice()),
        media,
    })
}

/// The item of a mobile API response: the first of its `items`.
pub fn mobile_item(json: &Json) -> (r: Option<&Json>)
    ensures
        od(r) == jfirst(jget(Some(*json), "items"@)),
{
    first(get(Some(json), "items"))
}

/// The position of a character in Instagram's shortcode alphabet
/// (`A-Z`, `a-z`, `0-9`, `-`, `_`).
pub open spec fn shortcode_digit(c: char) -> Option<nat> {
    if 'A' <= c <= 'Z' {
        Some((c as nat - 'A' as nat) as nat)
    } else if 'a' <= c <= 'z' {
        Some((c as nat - 'a' as nat + 26) as nat)
    } else if '0' <= c <= '9' {
        Some((c as nat - '0' as nat + 52) as nat)
    } else if c == '-' {
        Some(62)
    } else if c == '_' {
        Some(63)
    } else {
        None
    }
}

/// The media id a shortcode spells in base 64; characters outside the
/// alphabet are skipped.
pub open spec fn media_id_spec(s: Seq<char>) -> nat
    decreases s.len(),
{
    if s.len() == 0 {
        0
    } else {
        match shortcode_digit(s.last()) {
            Some(d) => media_id_spec(s.drop_last()) * 64 + d,
            None => media_id_spec(s.drop_last()),
        }
    }
}

fn shortcode_digit_exec(c: char) -> (r: Option<u64>)
    ensures
        match r {
            Some(d) => shortcode_digit(c) == Some(d as nat) && d < 64,
            None => shortcode_digit(c) is None,
        },
{
    if 'A' <= c && c <= 'Z' {
        Some((c as u32 - 'A' as u32) as u64)
    } else if 'a' <= c && c <= 'z' {
        Some((c as u32 - 'a' as u32 + 26) as u64)
    } else if '0' <= c && c <= '9' {
        Some((c as u32 - '0' as u32 + 52) as u64)
    } else if c == '-' {
        Some(62)
    } else if c == '_' {
        Some(63)
    } else {
        None
    }
}

/// The media id of a shortcode (see `media_id_spec`), or `None` when it is
/// past `u64::MAX` and so names no media.
pub fn shortcode_to_media_id(shortcode: &str) -> (r: Option<u64>)
    ensures
        match r {
            Some(id) => id as nat == media_id_spec(shortcode@),
            None => media_id_spec(shortcode@) > u64::MAX,
        },
{
    let s = to_chars(shortcode);
    let mut id: u64 = 0;
    let mut i: usize = 0;
    while i < s.len()
        invariant
            i <= s@.len(),
            s@ == shortcode@,
            id as nat == media_id_spec(s@.take(i as int)),
        decreases s@.len() - i,
    {
        assert(s@.take(i + 1).drop_last() =~= s@.take(i as int));
        assert(s@.take(i + 1).last() == s@[i as int]);
        if let Some(d) = shortcode_digit_exec(s[i]) {
            if id > (u64::MAX - d) / 64 {
                proof {
                    lemma_media_id_grows(s@, i as int + 1);
                    assert(id * 64 + d > u64::MAX) by (nonlinear_arith)
                        requires
                            id > (u64::MAX - d) / 64,
                            d < 64,
                    ;
                }
                return None;
            }
            id = id * 64 + d;
        }
        i += 1;
    }
    assert(s@.take(s@.len() as int) =~= s@);
    Some(id)
}

/// A prefix's id never exceeds the id of the whole shortcode.
proof fn lemma_media_id_grows(s: Seq<char>, k: int)
    requires
        0 <= k <= s.len(),
    ensures
        media_id_spec(s.take(k)) <= media_id_spec(s),
    decreases s.len() - k,
{
    if k < s.len() {
        lemma_media_id_grows(s, k + 1);
        assert(s.take(k + 1).drop_last() =~= s.take(k));
        let m = media_id_spec(s.take(k));
        assert(m <= m * 64) by (nonlinear_arith);
    } else {
        assert(s.take(k) =~= s);
    }
}

/// A media URL of a mirror page as a full URL: kept when absolute,
/// `https:` added to a scheme-relative one, the mirror's host to a path.
pub open spec fn resolve_mirror_url_spec(host: Seq<char>, value: Seq<char>) -> Seq<char> {
    if starts_with(value, "http://"@) || starts_with(value, "https://"@) {
        value
    } else {
        match strip_prefix(value, "//"@) {
            Some(rest) => "https://"@ + rest,
            None => if starts_with(value, "/"@) {
                "https://"@ + host + value
            } else {
                "https://"@ + host + "/"@ + value
            },
        }
    }
}

pub fn resolve_mirror_url(host: &[char], value: &[char]) -> (r: Vec<char>)
    ensures
        r@ == resolve_mirror_url_spec(host@, value@),
{
    if starts_with_str(value, "http://") || starts_with_str(value, "https://") {
        return vstd::slice::slice_to_vec(value);
    }
    let slashes = to_chars("//");
    let mut out = to_chars("https://");
    match strip_prefix_exec(value, slashes.as_slice()) {
        Some(rest) => {
            append(&mut out, rest);
        },
        None => {
            append(&mut out, host);
            if !starts_with_str(value, "/") {
                append_str(&mut out, "/");
            }
            append(&mut out, value);
        },
    }
    out
}

pub const SHORTCODE_PATTERN: &'static str = r"(?i)https?://(?:[a-z0-9-]+\.)?instagram\.com/(?:[^/?#]+/)?(?:p|reels?|tv)/([a-zA-Z0-9_-]+)";

pub open spec fn shortcode_spec(url: Seq<char>) -> Option<Seq<char>> {
    match regex_captures(SHORTCODE_PATTERN@, url) {
        Some(caps) => group(caps, 1),
        None => None,
    }
}

/// The shortcode of a post link.
pub fn extract_shortcode(url: &str) -> (r: Option<String>)
    ensures
        match r {
            Some(c) => shortcode_spec(url@) == Some(c@),
            None => shortcode_spec(url@) is None,
        },
{
    match captures(SHORTCODE_PATTERN, url) {
        Some(caps) => match group_exec(&caps, 1) {
            Some(g) => Some(from_chars(g.as_slice())),
            None => None,
        },
        None => None,
    }
}

pub const OG_TITLE_PATTERN: &'static str = r#"<meta\s+(?:property|name)="(?:og:title|twitter:title)"\s+content="([^"]*)""#;
pub const OG_DESC_PATTERN: &'static str = r#"<meta\s+(?:property|name)="og:description"\s+content="([^"]*)""#;
pub const OG_IMAGE_PATTERN: &'static str = r#"<meta\s+property="og:image"\s+content="([^"]*)""#;
pub const OG_VIDEO_PATTERN: &'static str = r#"<meta\s+property="og:video"\s+content="([^"]*)""#;

/// The first group of the first match of `pattern` in `text`.
pub open spec fn capture_first_spec(pattern: Seq<char>, text: Seq<char>) -> Option<Seq<char>> {
    match regex_captures(pattern, text) {
        Some(caps) => group(caps, 1),
        None => None,
    }
}

fn capture_first(pattern: &str, text: &str) -> (r: Option<Vec<char>>)
    ensures
        match r {
            Some(g) => capture_first_spec(pattern@, text@) == Some(g@),
            None => capture_first_spec(pattern@, text@) is None,
        },
{
    match captures(pattern, text) {
        Some(caps) => group_exec(&caps, 1),
        None => None,
    }
}

pub open spec fn at_sign() -> spec_fn(char) -> bool {
    |c: char| c == '@'
}

/// The handle in a mirror page's title: unescaped, without leading `@`,
/// up to ` (`.
pub open spec fn title_username(t: Seq<char>) -> Seq<char> {
    before_first(crate::text::skip_while(html_unescape_spec(t), at_sign()), " ("@)
}

/// What has been read of a post from a mirror so far.
pub struct MirrorScan {
    pub media: Vec<String>,
    pub username: String,
    pub caption: String,
    pub last: Option<String>,
}

pub struct MirrorScanView {
    pub media: Seq<Seq<char>>,
    pub username: Seq<char>,
    pub caption: Seq<char>,
    pub last: Option<Seq<char>>,
}

impl MirrorScan {
    pub open spec fn view(&self) -> MirrorScanView {
        MirrorScanView {
            media: crate::shared::views(self.media@),
            username: self.username@,
            caption: self.caption@,
            last: opt_view(self.last),
        }
    }
}

/// The scan after reading slide `n`'s page from `mirror`, and whether the
/// next slide is worth fetching. An empty page ends the scan; the first
/// page gives the handle and the caption; a page without a video or image,
/// or with the same one as the page before, ends it too.
pub open spec fn slide_step(st: MirrorScanView, mirror: Seq<char>, n: nat, html: Seq<char>) -> (MirrorScanView, bool) {
    if trim(html).len() == 0 {
        (st, false)
    } else {
        let st1 = if n == 1 {
            MirrorScanView {
                username: match capture_first_spec(OG_TITLE_PATTERN@, html) {
                    Some(t) => title_username(t),
                    None => st.username,
                },
                caption: match capture_first_spec(OG_DESC_PATTERN@, html) {
                    Some(d) => html_unescape_spec(d),
                    None => st.caption,
                },
                ..st
            }
        } else {
            st
        };
        let slide = match capture_first_spec(OG_VIDEO_PATTERN@, html) {
            Some(v) => Some(v),
            None => capture_first_spec(OG_IMAGE_PATTERN@, html),
        };
        match slide {
            None => (st1, false),
            Some(raw) => {
                let url = resolve_mirror_url_spec(mirror, raw);
                if st1.last == Some(url) {
                    (st1, false)
                } else {
                    (MirrorScanView { media: st1.media.push(url), last: Some(url), ..st1 }, true)
                }
            },
        }
    }
}

/// The post a finished scan found: `None` without media; the author is
/// the handle, or `instagram` when there is none.
pub open spec fn scan_post(st: MirrorScanView) -> Option<InstagramPostView> {
    if st.media.len() == 0 {
        None
    } else {
        Some(
            InstagramPostView {
                author: if st.username.len() == 0 {
                    "instagram"@
                } else {
                    st.username
                },
                username: st.username,
                text: st.caption,
                media: st.media,
            },
        )
    }
}

impl MirrorScan {
    pub fn new() -> (r: Self)
        ensures
            r.view() == (MirrorScanView { media: seq![], username: seq![], caption: seq![], last: None }),
    {
        let r = MirrorScan { media: Vec::new(), username: String::new(), caption: String::new(), last: None };
        assert(r.view().media =~= Seq::<Seq<char>>::empty());
        r
    }

    /// Reads the page of slide `n` (see `slide_step`).
    pub fn read_slide(&mut self, mirror: &str, n: usize, html: &str) -> (r: bool)
        ensures
            (final(self).view(), r) == slide_step(old(self).view(), mirror@, n as nat, html@),
    {
        let h = to_chars(html);
        if trim_exec(h.as_slice()).len() == 0 {
            return false;
        }
        if n == 1 {
            if let Some(t) = capture_first(OG_TITLE_PATTERN, html) {
                let u = html_unescape(t.as_slice());
                let mut a: usize = 0;
                assert(u@.skip(0) =~= u@);
                while a < u.len() && u[a] == '@'
                    invariant
                        a <= u@.len(),
                        crate::text::skip_while(u@.skip(a as int), at_sign()) == crate::text::skip_while(
                            u@,
                            at_sign(),
                        ),
                    decreases u@.len() - a,
                {
                    assert(u@.skip(a as int).skip(1) =~= u@.skip(a + 1));
                    a += 1;
                }
                let rest = vstd::slice::slice_subrange(u.as_slice(), a, u.len());
                assert(rest@ =~= u@.skip(a as int));
                let sep = to_chars(" (");
                let name = before_first_exec(rest, sep.as_slice());
                self.username = from_chars(name);
            }
            if let Some(d) = capture_first(OG_DESC_PATTERN, html) {
                let c = html_unescape(d.as_slice());
                self.caption = from_chars(c.as_slice());
            }
        }
        let slide = match capture_first(OG_VIDEO_PATTERN, html) {
            Some(v) => Some(v),
            None => capture_first(OG_IMAGE_PATTERN, html),
        };
        let raw = match slide {
            Some(r) => r,
            None => return false,
        };
        let m = to_chars(mirror);
        let url = resolve_mirror_url(m.as_slice(), raw.as_slice());
        if let Some(l) = &self.last {
            let lc = to_chars(l.as_str());
            if eq_exec(lc.as_slice(), url.as_slice()) {
                return false;
            }
        }
        self.last = Some(from_chars(url.as_slice()));
        push_url(&mut self.media, url);
        true
    }

    /// The post the scan found (see `scan_post`).
    pub fn finish(self) -> (r: Option<InstagramPost>)
        ensures
            match r {
                Some(p) => scan_post(self.view()) == Some(p.view()),
                None => scan_post(self.view()) is None,
            },
    {
        if self.media.len() == 0 {
            return None;
        }
        let author = if to_chars(self.username.as_str()).len() == 0 {
            "instagram".to_string()
        } else {
            self.username.clone()
        };
        Some(InstagramPost { author, username: self.username, text: self.caption, media: self.media })
    }
}


// ------------------------------------------------------------ requests

/// The ids of the GraphQL queries that load a post, tried in order.
pub fn instagram_doc_ids() -> (r: Vec<&'static str>)
    ensures
        crate::shared::str_views(r@) == seq!["8845758582119845"@, "25981206651899035"@],
{
    let r = vec!["8845758582119845", "25981206651899035"];
    assert(crate::shared::str_views(r@) =~= seq!["8845758582119845"@, "25981206651899035"@]);
    r
}

/// What a post link gives to fetch: its shortcode, or a share link to
/// follow first.
pub fn post_source(url: &str) -> (r: crate::shared::FetchTarget)
    ensures
        match shortcode_spec(url@) {
            Some(code) => (r matches crate::shared::FetchTarget::Id(c) && c@ == code),
            None => if contains(url@, "/share/"@) {
                r is Redirect
            } else {
                r is Unknown
            },
        },
{
    match extract_shortcode(url) {
        Some(code) => crate::shared::FetchTarget::Id(code),
        None => {
            let c = to_chars(url);
            if contains_str(c.as_slice(), "/share/") {
                crate::shared::FetchTarget::Redirect
            } else {
                crate::shared::FetchTarget::Unknown
            }
        },
    }
}

/// The query variables that name a post: `{"shortcode":<id>}`.
pub open spec fn shortcode_variables_spec(post_id: Seq<char>) -> Seq<char> {
    "{\"shortcode\":"@ + crate::json::json_quoted(post_id) + "}"@
}

pub fn shortcode_variables(post_id: &str) -> (r: Option<String>)
    ensures
        r matches Some(v) && v@ == shortcode_variables_spec(post_id@),
{
    match crate::json::quote_json(post_id) {
        Some(q) => {
            let mut out = to_chars("{\"shortcode\":");
            append_str(&mut out, q.as_str());
            append_str(&mut out, "}");
            Some(from_chars(out.as_slice()))
        },
        None => None,
    }
}

pub open spec fn enc(s: Seq<char>) -> Seq<char> {
    crate::pattern::percent_encode_bytes(vstd::utf8::encode_utf8(s))
}

/// The address of an anonymous GraphQL query.
pub fn simple_query_url(variables: &str, doc_id: &str) -> (r: String)
    ensures
        r@ == "https://www.instagram.com/graphql/query?variables="@ + enc(variables@) + "&doc_id="@ + doc_id@
            + "&server_timestamps=true"@,
{
    let mut out = to_chars("https://www.instagram.com/graphql/query?variables=");
    append_str(&mut out, crate::pattern::url_encode(variables).as_str());
    append_str(&mut out, "&doc_id=");
    append_str(&mut out, doc_id);
    append_str(&mut out, "&server_timestamps=true");
    from_chars(out.as_slice())
}

/// The page of a post, where the anonymous tokens are read.
pub fn post_page_url(post_id: &str) -> (r: String)
    ensures
        r@ == "https://www.instagram.com/p/"@ + post_id@ + "/"@,
{
    let mut out = to_chars("https://www.instagram.com/p/");
    append_str(&mut out, post_id);
    append_str(&mut out, "/");
    from_chars(out.as_slice())
}

/// The mobile API's address for a media id.
pub fn mobile_info_url(media_id: u64) -> (r: String)
    ensures
        r@ == "https://i.instagram.com/api/v1/media/"@ + decimal(media_id as nat) + "/info/"@,
{
    let mut out = to_chars("https://i.instagram.com/api/v1/media/");
    append(&mut out, decimal_exec(media_id).as_slice());
    append_str(&mut out, "/info/");
    from_chars(out.as_slice())
}

/// The page of slide `n` of a post on a mirror.
pub fn mirror_slide_url(mirror: &str, post_id: &str, n: usize) -> (r: String)
    ensures
        r@ == "https://"@ + mirror@ + "/p/"@ + post_id@ + "/"@ + decimal(n as nat),
{
    let mut out = to_chars("https://");
    append_str(&mut out, mirror);
    append_str(&mut out, "/p/");
    append_str(&mut out, post_id);
    append_str(&mut out, "/");
    append(&mut out, decimal_exec(n as u64).as_slice());
    from_chars(out.as_slice())
}

pub const LSD_PATTERN: &'static str = r#""LSD"[\s\S]{0,200}?"token":"([^"]+)""#;
pub const CSRF_PATTERN: &'static str = r#""csrf_token":"([^"]+)""#;
pub const BLOKS_PATTERN: &'static str = r#""versioningID":"([^"]+)""#;
pub const DEVICE_ID_PATTERN: &'static str = r#""device_id":"([^"]+)""#;
pub const MACHINE_ID_PATTERN: &'static str = r#""machine_id":"([^"]+)""#;

/// The tokens that let an anonymous visitor query GraphQL.
pub struct AnonTokens {
    pub lsd: String,
    pub csrf: String,
    pub bloks_version: String,
    pub cookie: String,
}

pub open spec fn opt_part(prefix: Seq<char>, v: Option<Seq<char>>) -> Seq<Seq<char>> {
    match v {
        Some(x) => seq![prefix + x],
        None => seq![],
    }
}

/// The cookie sent with the query: the CSRF token when there is one, the
/// device and machine ids when found, then fixed display settings.
pub open spec fn cookie_spec(csrf: Seq<char>, device_id: Option<Seq<char>>, machine_id: Option<Seq<char>>) -> Seq<
    char,
> {
    let csrf_part: Seq<Seq<char>> = if csrf.len() > 0 {
        seq!["csrftoken="@ + csrf]
    } else {
        seq![]
    };
    crate::text::join(
        csrf_part + opt_part("ig_did="@, device_id) + opt_part("mid="@, machine_id) + seq![
            "wd=1280x720"@,
            "dpr=2"@,
            "ig_nrcb=1"@,
        ],
        "; "@,
    )
}

/// The tokens read from a post's page: none without the LSD token; a
/// missing CSRF token or version id is empty.
pub open spec fn tokens_spec(html: Seq<char>) -> Option<(Seq<char>, Seq<char>, Seq<char>, Seq<char>)> {
    match capture_first_spec(LSD_PATTERN@, html) {
        None => None,
        Some(lsd) => {
            let csrf = str_or_empty(capture_first_spec(CSRF_PATTERN@, html));
            let bloks = str_or_empty(capture_first_spec(BLOKS_PATTERN@, html));
            let cookie = cookie_spec(
                csrf,
                capture_first_spec(DEVICE_ID_PATTERN@, html),
                capture_first_spec(MACHINE_ID_PATTERN@, html),
            );
            Some((lsd, csrf, bloks, cookie))
        },
    }
}

fn push_part(parts: &mut Vec<Vec<char>>, prefix: &str, v: &Option<Vec<char>>)
    ensures
        crate::text::vv(final(parts)@) == crate::text::vv(old(parts)@) + opt_part(prefix@, match v {
            Some(x) => Some(x@),
            None => None,
        }),
{
    match v {
        Some(x) => {
            let mut p = to_chars(prefix);
            append(&mut p, x.as_slice());
            let ghost before = parts@;
            parts.push(p);
            assert(crate::text::vv(parts@) =~= crate::text::vv(before) + seq![prefix@ + x@]);
        },
        None => {
            assert(crate::text::vv(parts@) =~= crate::text::vv(parts@) + Seq::<Seq<char>>::empty());
        },
    }
}

/// Reads the anonymous tokens from a post's page.
pub fn harvest_tokens(html: &str) -> (r: Option<AnonTokens>)
    ensures
        match tokens_spec(html@) {
            None => r is None,
            Some((lsd, csrf, bloks, cookie)) => (r matches Some(t) && t.lsd@ == lsd && t.csrf@ == csrf
                && t.bloks_version@ == bloks && t.cookie@ == cookie),
        },
{
    let lsd = match capture_first(LSD_PATTERN, html) {
        Some(l) => l,
        None => return None,
    };
    let csrf: Vec<char> = match capture_first(CSRF_PATTERN, html) {
        Some(c) => c,
        None => Vec::new(),
    };
    let bloks: Vec<char> = match capture_first(BLOKS_PATTERN, html) {
        Some(b) => b,
        None => Vec::new(),
    };
    let device_id = capture_first(DEVICE_ID_PATTERN, html);
    let machine_id = capture_first(MACHINE_ID_PATTERN, html);
    let mut parts: Vec<Vec<char>> = Vec::new();
    if csrf.len() > 0 {
        let mut p = to_chars("csrftoken=");
        append(&mut p, csrf.as_slice());
        parts.push(p);
    }
    let ghost csrf_part: Seq<Seq<char>> = if csrf@.len() > 0 {
        seq!["csrftoken="@ + csrf@]
    } else {
        seq![]
    };
    assert(crate::text::vv(parts@) =~= csrf_part);
    push_part(&mut parts, "ig_did=", &device_id);
    push_part(&mut parts, "mid=", &machine_id);
    let ghost mid_parts = crate::text::vv(parts@);
    parts.push(to_chars("wd=1280x720"));
    parts.push(to_chars("dpr=2"));
    parts.push(to_chars("ig_nrcb=1"));
    assert(crate::text::vv(parts@) =~= mid_parts + seq!["wd=1280x720"@, "dpr=2"@, "ig_nrcb=1"@]);
    let sep = to_chars("; ");
    let cookie = crate::text::join_exec(parts.as_slice(), sep.as_slice());
    Some(AnonTokens {
        lsd: from_chars(lsd.as_slice()),
        csrf: from_chars(csrf.as_slice()),
        bloks_version: from_chars(bloks.as_slice()),
        cookie: from_chars(cookie.as_slice()),
    })
}

/// A form body: each pair's key and value percent-encoded, joined by `=`,
/// the pairs joined by `&`.
pub open spec fn form_body_spec(pairs: Seq<(&str, &str)>) -> Seq<char> {
    crate::text::join(pairs.map_values(|p: (&str, &str)| enc(p.0@) + "="@ + enc(p.1@)), "&"@)
}

pub fn form_body(pairs: &[(&str, &str)]) -> (r: String)
    ensures
        r@ == form_body_spec(pairs@),
{
    let mut parts: Vec<Vec<char>> = Vec::new();
    let mut i: usize = 0;
    while i < pairs.len()
        invariant
            i <= pairs@.len(),
            crate::text::vv(parts@) == pairs@.take(i as int).map_values(
                |p: (&str, &str)| enc(p.0@) + "="@ + enc(p.1@),
            ),
        decreases pairs@.len() - i,
    {
        let (k, v) = pairs[i];
        let mut p = to_chars(crate::pattern::url_encode(k).as_str());
        append_str(&mut p, "=");
        append_str(&mut p, crate::pattern::url_encode(v).as_str());
        let ghost before = parts@;
        parts.push(p);
        assert(crate::text::vv(parts@) =~= crate::text::vv(before).push(enc(k@) + "="@ + enc(v@)));
        assert(pairs@.take(i as int + 1) =~= pairs@.take(i as int).push(pairs@[i as int]));
        assert(pairs@.take(i as int + 1).map_values(|p: (&str, &str)| enc(p.0@) + "="@ + enc(p.1@))
            =~= pairs@.take(i as int).map_values(|p: (&str, &str)| enc(p.0@) + "="@ + enc(p.1@)).push(
            enc(k@) + "="@ + enc(v@),
        ));
        i += 1;
    }
    assert(pairs@.take(pairs@.len() as int) =~= pairs@);
    let amp = to_chars("&");
    from_chars(crate::text::join_exec(parts.as_slice(), amp.as_slice()).as_slice())
}

/// The form pairs of a GraphQL query made with the anonymous tokens.
pub open spec fn authed_pairs(lsd: Seq<char>, variables: Seq<char>, doc_id: Seq<char>) -> Seq<(Seq<char>, Seq<char>)> {
    seq![
        ("__d"@, "www"@),
        ("__a"@, "1"@),
        ("__req"@, "b"@),
        ("__user"@, "0"@),
        ("__comet_req"@, "7"@),
        ("av"@, "0"@),
        ("dpr"@, "2"@),
        ("lsd"@, lsd),
        ("fb_api_caller_class"@, "RelayModern"@),
        ("fb_api_req_friendly_name"@, "PolarisPostActionLoadPostQueryQuery"@),
        ("variables"@, variables),
        ("server_timestamps"@, "true"@),
        ("doc_id"@, doc_id),
    ]
}

/// The body of a GraphQL query made with the anonymous tokens.
pub fn authed_query_body(lsd: &str, variables: &str, doc_id: &str) -> (r: String)
    ensures
        r@ == crate::text::join(
            authed_pairs(lsd@, variables@, doc_id@).map_values(
                |p: (Seq<char>, Seq<char>)| enc(p.0) + "="@ + enc(p.1),
            ),
            "&"@,
        ),
{
    let pairs: Vec<(&str, &str)> = vec![
        ("__d", "www"),
        ("__a", "1"),
        ("__req", "b"),
        ("__user", "0"),
        ("__comet_req", "7"),
        ("av", "0"),
        ("dpr", "2"),
        ("lsd", lsd),
        ("fb_api_caller_class", "RelayModern"),
        ("fb_api_req_friendly_name", "PolarisPostActionLoadPostQueryQuery"),
        ("variables", variables),
        ("server_timestamps", "true"),
        ("doc_id", doc_id),
    ];
    let r = form_body(pairs.as_slice());
    assert(pairs@.map_values(|p: (&str, &str)| enc(p.0@) + "="@ + enc(p.1@)) =~= authed_pairs(
        lsd@,
        variables@,
        doc_id@,
    ).map_values(|p: (Seq<char>, Seq<char>)| enc(p.0) + "="@ + enc(p.1)));
    r
}

} // verus!
