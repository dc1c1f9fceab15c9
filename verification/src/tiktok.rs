//! TikTok posts: recognizing post links and reading the download API's
//! answer.
use vstd::prelude::*;
use crate::text::{append, append_str, from_chars, lower, lower_exec, starts_with, starts_with_str, to_chars};
use crate::shared::{extract_host_spec, extract_host, matches_host_spec, matches_host, str_views, views};
use crate::pattern::{captures, group, group_exec, regex_captures, percent_encode_bytes, url_encode};
use crate::git_diff::opt_view;

verus! {

pub open spec fn tiktok_hosts_spec() -> Seq<Seq<char>> {
    seq![
        "tiktok.com"@,
        "vxtiktok.com"@,
        "tiktxk.com"@,
        "tnktok.com"@,
        "tfxktok.com"@,
        "kktiktok.com"@,
        "fixtiktok.com"@,
    ]
}

/// The domains of TikTok and of the services that mirror it.
pub fn tiktok_hosts() -> (r: Vec<&'static str>)
    ensures
        str_views(r@) == tiktok_hosts_spec(),
{
    let r = vec!["tiktok.com", "vxtiktok.com", "tiktxk.com", "tnktok.com", "tfxktok.com", "kktiktok.com", "fixtiktok.com"];
    assert(str_views(r@) =~= tiktok_hosts_spec());
    r
}

pub fn matches_tiktok_host(url: &str, custom: &[String]) -> (r: bool)
    ensures
        r == matches_host_spec(url@, tiktok_hosts_spec(), views(custom@)),
{
    let hosts = tiktok_hosts();
    matches_host(url, hosts.as_slice(), custom)
}

/// A link on a short-link host (`vm.` or `vt.`).
pub open spec fn is_short_link_host_spec(url: Seq<char>) -> bool {
    match extract_host_spec(url) {
        Some(h) => starts_with(lower(h), "vm."@) || starts_with(lower(h), "vt."@),
        None => false,
    }
}

pub fn is_short_link_host(url: &str) -> (r: bool)
    ensures
        r == is_short_link_host_spec(url@),
{
    match extract_host(url) {
        Some(h) => {
            let l = lower_exec(to_chars(h.as_str()).as_slice());
            starts_with_str(l.as_slice(), "vm.") || starts_with_str(l.as_slice(), "vt.")
        },
        None => false,
    }
}

pub const TIKTOK_POST_PATTERN: &'static str = r"(?i)https?://[^/]+/(?:@[\w.-]*/(?:video|photo)/(\d+)|(?:embed(?:/v\d+)?|player/v1)/(\d+)|v/(\d+)\.html|t/([A-Za-z0-9]+))";
pub const TIKTOK_SHORT_PATTERN: &'static str = r"(?i)https?://[^/]+/([A-Za-z0-9]+)";

/// The first of groups 1 to 4 that took part in the match.
pub open spec fn first_id_group(caps: Seq<Option<Seq<char>>>) -> Option<Seq<char>> {
    match group(caps, 1) {
        Some(g) => Some(g),
        None => match group(caps, 2) {
            Some(g) => Some(g),
            None => match group(caps, 3) {
                Some(g) => Some(g),
                None => group(caps, 4),
            },
        },
    }
}

/// The short link a TikTok post link is fetched through: the post id (or
/// short code) of a post link, or the code of a `vm.`/`vt.` short link.
pub open spec fn parse_spec(url: Seq<char>, custom: Seq<Seq<char>>) -> Option<Seq<char>> {
    if !matches_host_spec(url, tiktok_hosts_spec(), custom) {
        None
    } else {
        match regex_captures(TIKTOK_POST_PATTERN@, url) {
            Some(caps) => match first_id_group(caps) {
                Some(id) => Some("https://vm.tiktok.com/"@ + id),
                None => None,
            },
            None => if is_short_link_host_spec(url) {
                match regex_captures(TIKTOK_SHORT_PATTERN@, url) {
                    Some(caps) => match group(caps, 1) {
                        Some(code) => Some("https://vm.tiktok.com/"@ + code),
                        None => None,
                    },
                    None => None,
                }
            } else {
                None
            },
        }
    }
}

fn short_url(id: &[char]) -> (r: String)
    ensures
        r@ == "https://vm.tiktok.com/"@ + id@,
{
    let mut out = to_chars("https://vm.tiktok.com/");
    append(&mut out, id);
    from_chars(out.as_slice())
}

pub fn parse(url: &str, custom: &[String]) -> (r: Option<String>)
    ensures
        opt_view(r) == parse_spec(url@, views(custom@)),
{
    if !matches_tiktok_host(url, custom) {
        return None;
    }
    if let Some(caps) = captures(TIKTOK_POST_PATTERN, url) {
        let id = match group_exec(&caps, 1) {
            Some(g) => Some(g),
            None => match group_exec(&caps, 2) {
                Some(g) => Some(g),
                None => match group_exec(&caps, 3) {
                    Some(g) => Some(g),
                    None => group_exec(&caps, 4),
                },
            },
        };
        return match id {
            Some(g) => Some(short_url(g.as_slice())),
            None => None,
        };
    }
    if is_short_link_host(url) {
        if let Some(caps) = captures(TIKTOK_SHORT_PATTERN, url) {
            return match group_exec(&caps, 1) {
                Some(g) => Some(short_url(g.as_slice())),
                None => None,
            };
        }
    }
    None
}

/// The download API's URL for a post link.
pub open spec fn api_url_spec(url: Seq<char>) -> Seq<char> {
    "https://www.tikwm.com/api/?url="@ + percent_encode_bytes(vstd::utf8::encode_utf8(url))
}

pub fn api_url(url: &str) -> (r: String)
    ensures
        r@ == api_url_spec(url@),
{
    let mut out = to_chars("https://www.tikwm.com/api/?url=");
    append_str(&mut out, url_encode(url).as_str());
    from_chars(out.as_slice())
}

/// The data part of the download API's answer.
pub struct TikwmData {
    pub title: String,
    pub nickname: String,
    pub unique_id: String,
    pub images: Vec<String>,
    pub play: Option<String>,
}

/// The download API's answer.
pub struct TikwmReply {
    pub code: i32,
    pub msg: String,
    pub data: Option<TikwmData>,
}

/// A post as shown.
pub struct TikTokPost {
    pub author: String,
    pub username: String,
    pub text: String,
    pub media: Vec<String>,
}

/// The post an answer gives: an error when the API reports one, has no
/// data, or no media; the media are the post's images, or else its video.
pub fn read_reply(reply: TikwmReply) -> (r: Result<TikTokPost, String>)
    ensures
        reply.code != 0 ==> (r matches Err(e) && e@ == "API error: "@ + reply.msg@),
        reply.code == 0 ==> match reply.data {
            None => (r matches Err(e) && e@ == "No data returned from TikTok API"@),
            Some(d) => match r {
                Ok(p) => {
                    &&& p.author@ == d.nickname@
                    &&& p.username@ == d.unique_id@
                    &&& p.text@ == d.title@
                    &&& if d.images@.len() > 0 {
                        p.media@ == d.images@
                    } else {
                        (d.play matches Some(v) && views(p.media@) == seq![v@])
                    }
                },
                Err(e) => d.images@.len() == 0 && d.play is None && e@ == "No media found in TikTok post"@,
            },
        },
{
    if reply.code != 0 {
        let mut m = to_chars("API error: ");
        append_str(&mut m, reply.msg.as_str());
        return Err(from_chars(m.as_slice()));
    }
    let d = match reply.data {
        Some(d) => d,
        None => return Err("No data returned from TikTok API".to_string()),
    };
    let ghost dv = d;
    let TikwmData { title, nickname, unique_id, images, play } = d;
    let media = if images.len() > 0 {
        images
    } else {
        match play {
            Some(v) => {
                let mut m: Vec<String> = Vec::new();
                m.push(v);
                assert(views(m@) =~= seq![v@]);
                m
            },
            None => return Err("No media found in TikTok post".to_string()),
        }
    };
    Ok(TikTokPost { author: nickname, username: unique_id, text: title, media })
}

} // verus!
