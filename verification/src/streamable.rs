//! Streamable videos: recognizing links and choosing the file to re-upload.
use vstd::prelude::*;
use crate::text::{append, from_chars, to_chars};
use crate::shared::{matches_host_spec, matches_host, str_views, views};
use crate::pattern::{captures, group, group_exec, regex_captures};
use crate::git_diff::opt_view;

verus! {

pub open spec fn streamable_hosts_spec() -> Seq<Seq<char>> {
    seq!["streamable.com"@]
}

/// The Streamable domain.
pub fn streamable_hosts() -> (r: Vec<&'static str>)
    ensures
        str_views(r@) == streamable_hosts_spec(),
{
    let r = vec!["streamable.com"];
    assert(str_views(r@) =~= streamable_hosts_spec());
    r
}

/// A link on Streamable or on a custom Streamable host.
pub fn matches_streamable_host(url: &str, custom: &[String]) -> (r: bool)
    ensures
        r == matches_host_spec(url@, streamable_hosts_spec(), views(custom@)),
{
    let hosts = streamable_hosts();
    matches_host(url, hosts.as_slice(), custom)
}

pub const STREAMABLE_PATTERN: &'static str = r"(?i)streamable\.com/(?:e/|o/|s/)?([a-z0-9]+)";

/// The video code of a Streamable link: the pattern's first group.
pub open spec fn extract_shortcode_spec(url: Seq<char>, custom: Seq<Seq<char>>) -> Option<Seq<char>> {
    if !matches_host_spec(url, streamable_hosts_spec(), custom) {
        None
    } else {
        match regex_captures(STREAMABLE_PATTERN@, url) {
            Some(caps) => group(caps, 1),
            None => None,
        }
    }
}

fn chars_to_string(v: Option<Vec<char>>) -> (r: Option<String>)
    ensures
        opt_view(r) == match v {
            Some(c) => Some(c@),
            None => None::<Seq<char>>,
        },
{
    match v {
        Some(c) => Some(from_chars(c.as_slice())),
        None => None,
    }
}

/// The API address of a video.
pub fn api_url(shortcode: &str) -> (r: String)
    ensures
        r@ == "https://api.streamable.com/videos/"@ + shortcode@,
{
    let mut out = to_chars("https://api.streamable.com/videos/");
    append(&mut out, to_chars(shortcode).as_slice());
    from_chars(out.as_slice())
}

/// One downloadable file of a Streamable video.
pub struct StreamableFile {
    pub url: Option<String>,
    pub size: Option<u64>,
}

/// A file's URL when it can be re-uploaded: it has a URL and is not known
/// to be larger than `max_bytes`.
pub open spec fn fits_spec(f: Option<StreamableFile>, max_bytes: u64) -> Option<Seq<char>> {
    match f {
        Some(file) => match file.url {
            Some(u) => match file.size {
                Some(s) => if s > max_bytes {
                    None
                } else {
                    Some(u@)
                },
                None => Some(u@),
            },
            None => None,
        },
        None => None,
    }
}

fn fits(f: &Option<StreamableFile>, max_bytes: u64) -> (r: Option<String>)
    ensures
        opt_view(r) == fits_spec(*f, max_bytes),
{
    match f {
        Some(file) => match &file.url {
            Some(u) => match file.size {
                Some(s) => if s > max_bytes {
                    None
                } else {
                    Some(u.clone())
                },
                None => Some(u.clone()),
            },
            None => None,
        },
        None => None,
    }
}

/// The Streamable file to re-upload: the MP4 if it fits, else the mobile
/// MP4 if that fits.
pub fn pick_file(mp4: &Option<StreamableFile>, mp4_mobile: &Option<StreamableFile>, max_bytes: u64) -> (r: Option<
    String,
>)
    ensures
        opt_view(r) == match fits_spec(*mp4, max_bytes) {
            Some(u) => Some(u),
            None => fits_spec(*mp4_mobile, max_bytes),
        },
{
    match fits(mp4, max_bytes) {
        Some(u) => Some(u),
        None => fits(mp4_mobile, max_bytes),
    }
}


/// A Streamable video ready to re-upload.
pub struct StreamablePost {
    pub title: String,
    pub video_url: String,
}

impl StreamablePost {
    pub fn extract_shortcode(url: &str, custom: &[String]) -> (r: Option<String>)
        ensures
            opt_view(r) == extract_shortcode_spec(url@, views(custom@)),
    {
        if !matches_streamable_host(url, custom) {
            return None;
        }
        match captures(STREAMABLE_PATTERN, url) {
            Some(caps) => chars_to_string(group_exec(&caps, 1)),
            None => None,
        }
    }

    /// The video that the API's answer describes: refused while it is not
    /// ready (status 2) or when no file fits; an absent title is empty.
    pub fn from_reply(
        status: i32,
        title: Option<String>,
        mp4: &Option<StreamableFile>,
        mp4_mobile: &Option<StreamableFile>,
        max_bytes: u64,
    ) -> (r: Result<StreamablePost, String>)
        ensures
            status != 2 ==> (r matches Err(e) && e@ == "Streamable video is not ready"@),
            status == 2 ==> match (match fits_spec(*mp4, max_bytes) {
                Some(u) => Some(u),
                None => fits_spec(*mp4_mobile, max_bytes),
            }) {
                Some(u) => (r matches Ok(p) && p.video_url@ == u && p.title@ == match title {
                    Some(t) => t@,
                    None => Seq::<char>::empty(),
                }),
                None => (r matches Err(e) && e@
                    == "No playable Streamable video (it may be too large to re-upload)"@),
            },
    {
        if status != 2 {
            return Err("Streamable video is not ready".to_string());
        }
        match pick_file(mp4, mp4_mobile, max_bytes) {
            Some(video_url) => {
                let title = match title {
                    Some(t) => t,
                    None => String::new(),
                };
                Ok(StreamablePost { title, video_url })
            },
            None => Err("No playable Streamable video (it may be too large to re-upload)".to_string()),
        }
    }
}

} // verus!
