//! Bluesky posts: links, the thread API's JSON, and the DID document that
//! says where a video's blob is served.
use vstd::prelude::*;
use crate::text::{
    append, append_str, contains, contains_str, drop_while_end, ends_with, ends_with_str, eq_exec, from_chars,
    strip_prefix, strip_prefix_exec, to_chars,
};
use crate::json::{
    Json, as_array, as_str, get, get_str, get_str_or_empty, jarr, jget, jget_str, jget_str_or_empty, od,
};
use crate::shared::{matches_host_spec, matches_host, str_views, views};
use crate::pattern::{captures, group, group_exec, regex_captures, percent_encode_bytes, url_encode};
use crate::git_diff::opt_view;

verus! {

pub open spec fn bsky_hosts_spec() -> Seq<Seq<char>> {
    seq!["bsky.app"@, "fxbsky.app"@, "bskx.app"@, "psky.app"@, "cbsky.app"@]
}

/// The domains of Bluesky and of the services that mirror it.
pub fn bsky_hosts() -> (r: Vec<&'static str>)
    ensures
        str_views(r@) == bsky_hosts_spec(),
{
    let r = vec!["bsky.app", "fxbsky.app", "bskx.app", "psky.app", "cbsky.app"];
    assert(str_views(r@) =~= bsky_hosts_spec());
    r
}

pub fn matches_bsky_host(url: &str, custom: &[String]) -> (r: bool)
    ensures
        r == matches_host_spec(url@, bsky_hosts_spec(), views(custom@)),
{
    let hosts = bsky_hosts();
    matches_host(url, hosts.as_slice(), custom)
}

/// A word that links to a Bluesky post.
pub fn is_bsky_url(word: &str, custom: &[String]) -> (r: bool)
    ensures
        r == (matches_host_spec(word@, bsky_hosts_spec(), views(custom@)) && contains(word@, "/post/"@)),
{
    let w = to_chars(word);
    matches_bsky_host(word, custom) && contains_str(w.as_slice(), "/post/")
}

pub const POST_LINK_PATTERN: &'static str = r"(?i)/profile/([^/?#]+)/post/([^/?#]+)";

/// The actor and record key of a post link on a Bluesky host.
pub open spec fn parse_url_spec(url: Seq<char>, custom: Seq<Seq<char>>) -> Option<(Seq<char>, Seq<char>)> {
    if !matches_host_spec(url, bsky_hosts_spec(), custom) {
        None
    } else {
        match regex_captures(POST_LINK_PATTERN@, url) {
            Some(caps) => match (group(caps, 1), group(caps, 2)) {
                (Some(a), Some(k)) => Some((a, k)),
                _ => None,
            },
            None => None,
        }
    }
}

pub fn parse_url(url: &str, custom: &[String]) -> (r: Option<(String, String)>)
    ensures
        match r {
            Some((a, k)) => parse_url_spec(url@, views(custom@)) == Some((a@, k@)),
            None => parse_url_spec(url@, views(custom@)) is None,
        },
{
    if !matches_bsky_host(url, custom) {
        return None;
    }
    let caps = match captures(POST_LINK_PATTERN, url) {
        Some(c) => c,
        None => return None,
    };
    match (group_exec(&caps, 1), group_exec(&caps, 2)) {
        (Some(a), Some(k)) => Some((from_chars(a.as_slice()), from_chars(k.as_slice()))),
        _ => None,
    }
}

/// The thread API URL of a post.
pub open spec fn thread_url_spec(actor: Seq<char>, rkey: Seq<char>) -> Seq<char> {
    "https://public.api.bsky.app/xrpc/app.bsky.feed.getPostThread?uri="@ + percent_encode_bytes(
        vstd::utf8::encode_utf8("at://"@ + actor + "/app.bsky.feed.post/"@ + rkey),
    )
}

pub fn thread_url(actor: &str, rkey: &str) -> (r: String)
    ensures
        r@ == thread_url_spec(actor@, rkey@),
{
    let mut uri = to_chars("at://");
    append_str(&mut uri, actor);
    append_str(&mut uri, "/app.bsky.feed.post/");
    append_str(&mut uri, rkey);
    let u = from_chars(uri.as_slice());
    let enc = url_encode(u.as_str());
    let mut out = to_chars("https://public.api.bsky.app/xrpc/app.bsky.feed.getPostThread?uri=");
    append_str(&mut out, enc.as_str());
    from_chars(out.as_slice())
}

/// The post of a thread response, if it has one.
pub fn thread_post(json: &Json) -> (r: Option<&Json>)
    ensures
        od(r) == jget(jget(Some(*json), "thread"@), "post"@),
{
    get(get(Some(json), "thread"), "post")
}

/// The URL of the DID document of `did`: on its own host for `did:web:`,
/// in the PLC directory otherwise.
pub open spec fn did_doc_url_spec(did: Seq<char>) -> Seq<char> {
    match strip_prefix(did, "did:web:"@) {
        Some(host) => "https://"@ + host + "/.well-known/did.json"@,
        None => "https://plc.directory/"@ + did,
    }
}

pub fn did_doc_url(did: &str) -> (r: String)
    ensures
        r@ == did_doc_url_spec(did@),
{
    let d = to_chars(did);
    let prefix = to_chars("did:web:");
    let out = match strip_prefix_exec(d.as_slice(), prefix.as_slice()) {
        Some(host) => {
            let mut o = to_chars("https://");
            append(&mut o, host);
            append_str(&mut o, "/.well-known/did.json");
            o
        },
        None => {
            let mut o = to_chars("https://plc.directory/");
            append(&mut o, d.as_slice());
            o
        },
    };
    from_chars(out.as_slice())
}

/// The endpoint of the first service whose id ends with `atproto_pds` and
/// that names an endpoint.
pub open spec fn pds_of(services: Seq<Json>) -> Option<Seq<char>>
    decreases services.len(),
{
    if services.len() == 0 {
        None
    } else {
        let s = Some(services[0]);
        let here = match jget_str(s, "id"@) {
            Some(id) => if ends_with(id, "atproto_pds"@) {
                jget_str(s, "serviceEndpoint"@)
            } else {
                None
            },
            None => None,
        };
        match here {
            Some(e) => Some(e),
            None => pds_of(services.drop_first()),
        }
    }
}

pub open spec fn pds_from_doc_spec(doc: Json) -> Option<Seq<char>> {
    match jarr(jget(Some(doc), "service"@)) {
        Some(services) => pds_of(services),
        None => None,
    }
}

/// The personal data server a DID document names.
pub fn pds_from_doc(doc: &Json) -> (r: Option<String>)
    ensures
        match r {
            Some(e) => pds_from_doc_spec(*doc) == Some(e@),
            None => pds_from_doc_spec(*doc) is None,
        },
{
    let services = match as_array(get(Some(doc), "service")) {
        Some(s) => s,
        None => return None,
    };
    let mut i: usize = 0;
    assert(services@.skip(0) =~= services@);
    while i < services.len()
        invariant
            i <= services@.len(),
            pds_from_doc_spec(*doc) == pds_of(services@),
            pds_of(services@) == pds_of(services@.skip(i as int)),
        decreases services@.len() - i,
    {
        assert(services@.skip(i as int)[0] == services@[i as int]);
        assert(services@.skip(i as int).drop_first() =~= services@.skip(i + 1));
        let s = Some(&services[i]);
        if let Some(id) = get_str(s, "id") {
            if crate::text::ends_with_str(id.as_slice(), "atproto_pds") {
                if let Some(e) = get_str(s, "serviceEndpoint") {
                    return Some(from_chars(e.as_slice()));
                }
            }
        }
        i += 1;
    }
    assert(services@.skip(i as int) =~= Seq::<Json>::empty());
    None
}

/// A media item of a post: its URL and whether it is a video.
pub struct BskyMedia {
    pub url: String,
    pub is_video: bool,
}

pub open spec fn bmedia_views(ms: Seq<BskyMedia>) -> Seq<(Seq<char>, bool)> {
    ms.map_values(|m: BskyMedia| (m.url@, m.is_video))
}

/// A post as shown.
pub struct BskyPost {
    pub author: String,
    pub handle: String,
    pub text: String,
    pub media: Vec<BskyMedia>,
    pub external: Option<(String, String)>,
    pub quote_author: Option<String>,
    pub quote_text: Option<String>,
}

pub struct BskyPostView {
    pub author: Seq<char>,
    pub handle: Seq<char>,
    pub text: Seq<char>,
    pub media: Seq<(Seq<char>, bool)>,
    pub external: Option<(Seq<char>, Seq<char>)>,
    pub quote_author: Option<Seq<char>>,
    pub quote_text: Option<Seq<char>>,
}

impl BskyPost {
    pub open spec fn view(&self) -> BskyPostView {
        BskyPostView {
            author: self.author@,
            handle: self.handle@,
            text: self.text@,
            media: bmedia_views(self.media@),
            external: match self.external {
                Some((t, u)) => Some((t@, u@)),
                None => None,
            },
            quote_author: opt_view(self.quote_author),
            quote_text: opt_view(self.quote_text),
        }
    }
}

/// A non-empty string, else the fallback.
pub open spec fn nonempty_or(s: Option<Seq<char>>, fallback: Seq<char>) -> Seq<char> {
    match s {
        Some(x) => if x.len() > 0 {
            x
        } else {
            fallback
        },
        None => fallback,
    }
}

pub open spec fn post_did(p: Option<Json>) -> Seq<char> {
    jget_str_or_empty(jget(p, "author"@), "did"@)
}

/// The part of an embed that holds media: the `media` of a record with
/// media, else the embed itself.
pub open spec fn media_view_of(embed: Option<Json>) -> Option<Json> {
    match embed {
        None => None,
        Some(_) => if jget_str_or_empty(embed, "$type"@) == "app.bsky.embed.recordWithMedia#view"@ {
            jget(embed, "media"@)
        } else {
            embed
        },
    }
}

pub open spec fn fullsize_images(imgs: Seq<Json>) -> Seq<(Seq<char>, bool)>
    decreases imgs.len(),
{
    if imgs.len() == 0 {
        seq![]
    } else {
        let before = fullsize_images(imgs.drop_last());
        match jget_str(Some(imgs.last()), "fullsize"@) {
            Some(u) => before.push((u, false)),
            None => before,
        }
    }
}

/// The DID whose document has to be read to link a post's video: set when
/// the post embeds a video with a content id and its author's DID is known.
pub open spec fn pds_request_spec(p: Option<Json>) -> Option<Seq<char>> {
    let mv = media_view_of(jget(p, "embed"@));
    if jget_str_or_empty(mv, "$type"@) == "app.bsky.embed.video#view"@ && jget_str(mv, "cid"@) is Some
        && post_did(p).len() > 0 {
        Some(post_did(p))
    } else {
        None
    }
}

pub fn pds_request(post: &Json) -> (r: Option<String>)
    ensures
        opt_view(r) == pds_request_spec(Some(*post)),
{
    let p = Some(post);
    let embed = get(p, "embed");
    let mv = media_view_exec(embed);
    let kind = get_str_or_empty(mv, "$type");
    let video = to_chars("app.bsky.embed.video#view");
    let did = get_str_or_empty(get(p, "author"), "did");
    if eq_exec(kind.as_slice(), video.as_slice()) && get_str(mv, "cid").is_some() && did.len() > 0 {
        Some(from_chars(did.as_slice()))
    } else {
        None
    }
}

fn media_view_exec(embed: Option<&Json>) -> (r: Option<&Json>)
    ensures
        od(r) == media_view_of(od(embed)),
{
    match embed {
        None => None,
        Some(_) => {
            let kind = get_str_or_empty(embed, "$type");
            let rwm = to_chars("app.bsky.embed.recordWithMedia#view");
            if eq_exec(kind.as_slice(), rwm.as_slice()) {
                get(embed, "media")
            } else {
                embed
            }
        },
    }
}

/// The blob URL of a video: the server without trailing `/`, then the
/// percent-encoded DID and content id.
pub open spec fn blob_url_spec(pds: Seq<char>, did: Seq<char>, cid: Seq<char>) -> Seq<char> {
    drop_while_end(pds, |c: char| c == '/') + "/xrpc/com.atproto.sync.getBlob?did="@ + percent_encode_bytes(
        vstd::utf8::encode_utf8(did),
    ) + "&cid="@ + percent_encode_bytes(vstd::utf8::encode_utf8(cid))
}

/// The media and the link card of a post's embed. A video is linked only
/// when its server is known (`pds`).
pub open spec fn parse_embed_spec(embed: Option<Json>, did: Seq<char>, pds: Option<Seq<char>>) -> (
    Seq<(Seq<char>, bool)>,
    Option<(Seq<char>, Seq<char>)>,
) {
    let mv = media_view_of(embed);
    if mv is None {
        (seq![], None)
    } else {
        let kind = jget_str_or_empty(mv, "$type"@);
        if kind == "app.bsky.embed.images#view"@ {
            (match jarr(jget(mv, "images"@)) {
                Some(imgs) => fullsize_images(imgs),
                None => seq![],
            }, None)
        } else if kind == "app.bsky.embed.video#view"@ {
            (match (jget_str(mv, "cid"@), pds) {
                (Some(cid), Some(server)) => if did.len() > 0 {
                    seq![(blob_url_spec(server, did, cid), true)]
                } else {
                    seq![]
                },
                _ => seq![],
            }, None)
        } else if kind == "app.bsky.embed.external#view"@ {
            let ext = jget(mv, "external"@);
            (seq![], match (ext, jget_str(ext, "uri"@)) {
                (Some(_), Some(uri)) => Some((nonempty_or(jget_str(ext, "title"@), uri), uri)),
                _ => None,
            })
        } else {
            (seq![], None)
        }
    }
}

/// The quoted post's author (display name, else handle) and text.
pub open spec fn parse_quote_spec(embed: Option<Json>) -> (Option<Seq<char>>, Option<Seq<char>>) {
    let kind = jget_str_or_empty(embed, "$type"@);
    let record = if kind == "app.bsky.embed.record#view"@ {
        jget(embed, "record"@)
    } else if kind == "app.bsky.embed.recordWithMedia#view"@ {
        jget(jget(embed, "record"@), "record"@)
    } else {
        None
    };
    match record {
        None => (None, None),
        Some(_) => {
            let a = jget(record, "author"@);
            let qauthor = match a {
                None => None,
                Some(_) => match jget_str(a, "displayName"@) {
                    Some(n) => if n.len() > 0 {
                        Some(n)
                    } else {
                        jget_str(a, "handle"@)
                    },
                    None => jget_str(a, "handle"@),
                },
            };
            (qauthor, jget_str(jget(record, "value"@), "text"@))
        },
    }
}

/// A post from the thread API, with the video server that `pds_request`
/// asked for (when it asked).
pub open spec fn parse_post_spec(p: Json, pds: Option<Seq<char>>) -> BskyPostView {
    let post = Some(p);
    let a = jget(post, "author"@);
    let handle = jget_str_or_empty(a, "handle"@);
    let embed = jget(post, "embed"@);
    let (media, external) = parse_embed_spec(embed, post_did(post), pds);
    let (qa, qt) = parse_quote_spec(embed);
    BskyPostView {
        author: nonempty_or(jget_str(a, "displayName"@), handle),
        handle,
        text: jget_str_or_empty(jget(post, "record"@), "text"@),
        media,
        external,
        quote_author: qa,
        quote_text: qt,
    }
}

fn nonempty_or_exec(s: Option<Vec<char>>, fallback: &Vec<char>) -> (r: Vec<char>)
    ensures
        r@ == nonempty_or(match s {
            Some(x) => Some(x@),
            None => None,
        }, fallback@),
{
    match s {
        Some(x) => if x.len() > 0 {
            x
        } else {
            vstd::slice::slice_to_vec(fallback.as_slice())
        },
        None => vstd::slice::slice_to_vec(fallback.as_slice()),
    }
}

fn fullsize_images_exec(imgs: &Vec<Json>) -> (r: Vec<BskyMedia>)
    ensures
        bmedia_views(r@) == fullsize_images(imgs@),
{
    let mut out: Vec<BskyMedia> = Vec::new();
    let mut i: usize = 0;
    while i < imgs.len()
        invariant
            i <= imgs@.len(),
            bmedia_views(out@) == fullsize_images(imgs@.take(i as int)),
        decreases imgs@.len() - i,
    {
        assert(imgs@.take(i + 1).drop_last() =~= imgs@.take(i as int));
        assert(imgs@.take(i + 1).last() == imgs@[i as int]);
        if let Some(u) = get_str(Some(&imgs[i]), "fullsize") {
            let m = BskyMedia { url: from_chars(u.as_slice()), is_video: false };
            let ghost before = out@;
            out.push(m);
            assert(bmedia_views(out@) =~= bmedia_views(before).push((u@, false)));
        }
        i += 1;
    }
    assert(imgs@.take(imgs@.len() as int) =~= imgs@);
    out
}

fn blob_url(pds: &str, did: &[char], cid: &[char]) -> (r: Vec<char>)
    ensures
        r@ == blob_url_spec(pds@, did@, cid@),
{
    let p = to_chars(pds);
    let mut b: usize = p.len();
    assert(p@.subrange(0, b as int) =~= p@);
    while b > 0 && p[b - 1] == '/'
        invariant
            b <= p@.len(),
            p@ == pds@,
            drop_while_end(p@.subrange(0, b as int), |c: char| c == '/') == drop_while_end(pds@, |c: char| c == '/'),
        decreases b,
    {
        assert(p@.subrange(0, b as int).drop_last() =~= p@.subrange(0, b - 1));
        b -= 1;
    }
    let mut out = vstd::slice::slice_to_vec(vstd::slice::slice_subrange(p.as_slice(), 0, b));
    append_str(&mut out, "/xrpc/com.atproto.sync.getBlob?did=");
    let d = from_chars(did);
    let de = url_encode(d.as_str());
    append_str(&mut out, de.as_str());
    append_str(&mut out, "&cid=");
    let c = from_chars(cid);
    let ce = url_encode(c.as_str());
    append_str(&mut out, ce.as_str());
    out
}

fn parse_embed(embed: Option<&Json>, did: &Vec<char>, pds: Option<&str>) -> (r: (Vec<BskyMedia>, Option<(String, String)>))
    ensures
        (bmedia_views(r.0@), match r.1 {
            Some((t, u)) => Some((t@, u@)),
            None => None,
        }) == parse_embed_spec(od(embed), did@, match pds {
            Some(s) => Some(s@),
            None => None,
        }),
{
    let mv = media_view_exec(embed);
    if mv.is_none() {
        return (Vec::new(), None);
    }
    let kind = get_str_or_empty(mv, "$type");
    let images = to_chars("app.bsky.embed.images#view");
    let video = to_chars("app.bsky.embed.video#view");
    let external = to_chars("app.bsky.embed.external#view");
    if eq_exec(kind.as_slice(), images.as_slice()) {
        let media = match as_array(get(mv, "images")) {
            Some(imgs) => fullsize_images_exec(imgs),
            None => Vec::new(),
        };
        return (media, None);
    }
    if eq_exec(kind.as_slice(), video.as_slice()) {
        let mut media: Vec<BskyMedia> = Vec::new();
        if let (Some(cid), Some(server)) = (get_str(mv, "cid"), pds) {
            if did.len() > 0 {
                let u = blob_url(server, did.as_slice(), cid.as_slice());
                media.push(BskyMedia { url: from_chars(u.as_slice()), is_video: true });
                assert(bmedia_views(media@) =~= seq![(u@, true)]);
            }
        }
        return (media, None);
    }
    if eq_exec(kind.as_slice(), external.as_slice()) {
        let ext = get(mv, "external");
        let card = match (ext, get_str(ext, "uri")) {
            (Some(_), Some(uri)) => {
                let title = nonempty_or_exec(get_str(ext, "title"), &uri);
                Some((from_chars(title.as_slice()), from_chars(uri.as_slice())))
            },
            _ => None,
        };
        return (Vec::new(), card);
    }
    (Vec::new(), None)
}

fn opt_chars_string(s: Option<Vec<char>>) -> (r: Option<String>)
    ensures
        opt_view(r) == match s {
            Some(x) => Some(x@),
            None => None,
        },
{
    match s {
        Some(x) => Some(from_chars(x.as_slice())),
        None => None,
    }
}

fn parse_quote(embed: Option<&Json>) -> (r: (Option<String>, Option<String>))
    ensures
        (opt_view(r.0), opt_view(r.1)) == parse_quote_spec(od(embed)),
{
    let kind = get_str_or_empty(embed, "$type");
    let rec = to_chars("app.bsky.embed.record#view");
    let rwm = to_chars("app.bsky.embed.recordWithMedia#view");
    let record = if eq_exec(kind.as_slice(), rec.as_slice()) {
        get(embed, "record")
    } else if eq_exec(kind.as_slice(), rwm.as_slice()) {
        get(get(embed, "record"), "record")
    } else {
        None
    };
    if record.is_none() {
        return (None, None);
    }
    let a = get(record, "author");
    let qauthor = match a {
        None => None,
        Some(_) => match get_str(a, "displayName") {
            Some(n) => if n.len() > 0 {
                Some(n)
            } else {
                get_str(a, "handle")
            },
            None => get_str(a, "handle"),
        },
    };
    let qtext = get_str(get(record, "value"), "text");
    (opt_chars_string(qauthor), opt_chars_string(qtext))
}

/// A post from the thread API (see `parse_post_spec`).
pub fn parse_post(post: &Json, pds: Option<&str>) -> (r: BskyPost)
    ensures
        r.view() == parse_post_spec(*post, match pds {
            Some(s) => Some(s@),
            None => None,
        }),
{
    let p = Some(post);
    let a = get(p, "author");
    let handle = get_str_or_empty(a, "handle");
    let author = nonempty_or_exec(get_str(a, "displayName"), &handle);
    let did = get_str_or_empty(a, "did");
    let text = get_str_or_empty(get(p, "record"), "text");
    let embed = get(p, "embed");
    let (media, external) = parse_embed(embed, &did, pds);
    let (qa, qt) = parse_quote(embed);
    BskyPost {
        author: from_chars(author.as_slice()),
        handle: from_chars(handle.as_slice()),
        text: from_chars(text.as_slice()),
        media,
        external,
        quote_author: qa,
        quote_text: qt,
    }
}

} // verus!
