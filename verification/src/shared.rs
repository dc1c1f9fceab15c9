//! Hosts, domains, blocklists and media file names: the link-matching rules
//! that every media and git handler shares.
use vstd::prelude::*;
use vstd::string::StringSliceAdditionalSpecFns;
use crate::text::{
    after_last, before_first, ends_with, ends_with_exec, eq_exec, find, find_exec, lemma_find,
    lower, lower_exec, before_first_exec, from_chars, to_chars, trim, trim_exec, trim_start_str,
    trim_start_str_exec, skip_while, drop_while_end, char_is_alphanumeric, is_alphanumeric,
    contains, contains_exec, append, append_str, split_seq, split_exec, vv,
};
use crate::num::{decimal, decimal_exec, all_digits, digits_value, is_digit, unsigned_digits, parse_u64};

verus! {

/// `host` is `domain` itself or one of its subdomains.
pub open spec fn host_under_domain_spec(host: Seq<char>, domain: Seq<char>) -> bool {
    host == domain || (ends_with(host, domain) && host.len() > domain.len() && host[host.len()
        - domain.len() - 1] == '.')
}

/// The host part of a URL: after the first `://`, up to the first `/`, then
/// up to the first `?`, then up to the first `:`; `None` when there is no
/// scheme separator or the host is empty.
pub open spec fn extract_host_spec(url: Seq<char>) -> Option<Seq<char>> {
    match find(url, "://"@) {
        None => None,
        Some(i) => {
            let h = before_first(
                before_first(before_first(url.skip(i + 3), "/"@), "?"@),
                ":"@,
            );
            if h.len() == 0 {
                None
            } else {
                Some(h)
            }
        },
    }
}

/// Some domain of the list covers `host`.
pub open spec fn any_domain_covers(host: Seq<char>, domains: Seq<Seq<char>>) -> bool {
    exists|k: int| 0 <= k < domains.len() && host_under_domain_spec(host, #[trigger] domains[k])
}

/// A URL belongs to a service: its lowercased host is under one of the
/// service's built-in domains or one of the domains added for it at run time.
pub open spec fn matches_host_spec(url: Seq<char>, hosts: Seq<Seq<char>>, custom: Seq<Seq<char>>) -> bool {
    match extract_host_spec(lower(url)) {
        None => false,
        Some(h) => any_domain_covers(h, hosts) || any_domain_covers(h, custom),
    }
}

/// Both sides with leading `www.` removed and lowercased, then compared by
/// `host_under_domain_spec`.
pub open spec fn host_matches_blocked_spec(host: Seq<char>, blocked: Seq<char>) -> bool {
    host_under_domain_spec(
        lower(trim_start_str(host, "www."@)),
        lower(trim_start_str(blocked, "www."@)),
    )
}

pub open spec fn url_in_blocklist_spec(url: Seq<char>, blocklist: Seq<Seq<char>>) -> bool {
    blocklist.len() > 0 && match extract_host_spec(url) {
        None => false,
        Some(h) => exists|k: int|
            0 <= k < blocklist.len() && host_matches_blocked_spec(h, #[trigger] blocklist[k]),
    }
}

/// A domain as an administrator types it, reduced to a bare lowercase host.
pub open spec fn normalize_domain_spec(domain: Seq<char>) -> Seq<char> {
    let stripped = trim_start_str(
        trim_start_str(trim_start_str(lower(trim(domain)), "https://"@), "http://"@),
        "www."@,
    );
    before_first(before_first(stripped, "/"@), ":"@)
}

pub open spec fn views(v: Seq<String>) -> Seq<Seq<char>> {
    v.map_values(|s: String| s@)
}

pub open spec fn str_views(v: Seq<&str>) -> Seq<Seq<char>> {
    v.map_values(|s: &str| s@)
}

pub fn host_under_domain_chars(host: &[char], domain: &[char]) -> (r: bool)
    ensures
        r == host_under_domain_spec(host@, domain@),
{
    if eq_exec(host, domain) {
        return true;
    }
    if ends_with_exec(host, domain) && host.len() > domain.len() {
        host[host.len() - domain.len() - 1] == '.'
    } else {
        false
    }
}

/// Whether `host` is `domain` or a subdomain of it.
pub fn host_under_domain(host: &str, domain: &str) -> (r: bool)
    ensures
        r == host_under_domain_spec(host@, domain@),
{
    let h = to_chars(host);
    let d = to_chars(domain);
    host_under_domain_chars(h.as_slice(), d.as_slice())
}

pub fn extract_host_chars(url: &[char]) -> (r: Option<Vec<char>>)
    ensures
        match r {
            Some(h) => extract_host_spec(url@) == Some(h@),
            None => extract_host_spec(url@) is None,
        },
{
    let sep = to_chars("://");
    match find_exec(url, sep.as_slice()) {
        None => None,
        Some(i) => {
            let n = url.len();
            proof {
                reveal_strlit("://");
                lemma_find(url@, "://"@);
            }
            assert(i + 3 <= n);
            let after = vstd::slice::slice_subrange(url, i + 3, n);
            assert(after@ =~= url@.skip(i + 3));
            let slash = to_chars("/");
            let q = to_chars("?");
            let colon = to_chars(":");
            let a = before_first_exec(after, slash.as_slice());
            let b = before_first_exec(a, q.as_slice());
            let c = before_first_exec(b, colon.as_slice());
            if c.len() == 0 {
                None
            } else {
                Some(vstd::slice::slice_to_vec(c))
            }
        },
    }
}

/// The host of a URL (see `extract_host_spec`).
pub fn extract_host(url: &str) -> (r: Option<String>)
    ensures
        match r {
            Some(h) => extract_host_spec(url@) == Some(h@),
            None => extract_host_spec(url@) is None,
        },
{
    let u = to_chars(url);
    match extract_host_chars(u.as_slice()) {
        Some(h) => Some(from_chars(h.as_slice())),
        None => None,
    }
}

fn any_str_covers(host: &[char], domains: &[&str]) -> (r: bool)
    ensures
        r == any_domain_covers(host@, str_views(domains@)),
{
    let mut k: usize = 0;
    while k < domains.len()
        invariant
            k <= domains@.len(),
            forall|j: int| 0 <= j < k ==> !host_under_domain_spec(host@, #[trigger] str_views(domains@)[j]),
        decreases domains@.len() - k,
    {
        let d = to_chars(domains[k]);
        if host_under_domain_chars(host, d.as_slice()) {
            assert(host_under_domain_spec(host@, str_views(domains@)[k as int]));
            return true;
        }
        k += 1;
    }
    false
}

fn any_string_covers(host: &[char], domains: &[String]) -> (r: bool)
    ensures
        r == any_domain_covers(host@, views(domains@)),
{
    let mut k: usize = 0;
    while k < domains.len()
        invariant
            k <= domains@.len(),
            forall|j: int| 0 <= j < k ==> !host_under_domain_spec(host@, #[trigger] views(domains@)[j]),
        decreases domains@.len() - k,
    {
        let d = to_chars(domains[k].as_str());
        if host_under_domain_chars(host, d.as_slice()) {
            assert(host_under_domain_spec(host@, views(domains@)[k as int]));
            return true;
        }
        k += 1;
    }
    false
}

/// The `(service, domain)` rows of the run-time host table as text.
pub open spec fn row_views(rows: Seq<(String, String)>) -> Seq<(Seq<char>, Seq<char>)> {
    rows.map_values(|r: (String, String)| (r.0@, r.1@))
}

/// The domains that the rows give `service`, in row order, each with its
/// ASCII letters lowercased.
pub open spec fn service_hosts_spec(rows: Seq<(Seq<char>, Seq<char>)>, service: Seq<char>) -> Seq<Seq<char>>
    decreases rows.len(),
{
    if rows.len() == 0 {
        seq![]
    } else {
        let rest = service_hosts_spec(rows.drop_last(), service);
        if rows.last().0 == service {
            rest.push(lower(rows.last().1))
        } else {
            rest
        }
    }
}

/// The run-time domains of `service`, read from the table's rows (see
/// `service_hosts_spec`).
pub fn service_hosts(rows: &[(String, String)], service: &str) -> (r: Vec<String>)
    ensures
        views(r@) == service_hosts_spec(row_views(rows@), service@),
{
    let mut out: Vec<String> = Vec::new();
    let sc = to_chars(service);
    let mut i: usize = 0;
    while i < rows.len()
        invariant
            i <= rows@.len(),
            sc@ == service@,
            views(out@) == service_hosts_spec(row_views(rows@).take(i as int), service@),
        decreases rows@.len() - i,
    {
        let ghost prefix = row_views(rows@).take(i as int);
        assert(row_views(rows@).take(i + 1).drop_last() =~= prefix);
        let (svc, dom) = &rows[i];
        let svc_c = to_chars(svc.as_str());
        if eq_exec(svc_c.as_slice(), sc.as_slice()) {
            let dc = to_chars(dom.as_str());
            let l = lower_exec(dc.as_slice());
            let ls = from_chars(l.as_slice());
            let ghost before = out@;
            out.push(ls);
            assert(views(out@) =~= views(before).push(ls@));
        }
        i = i + 1;
    }
    assert(row_views(rows@).take(rows@.len() as int) =~= row_views(rows@));
    out
}

/// Whether `host` is under one of the domains added at run time for a
/// service (`custom` holds that service's domains, lowercased).
pub fn custom_host_matches(custom: &[String], host: &str) -> (r: bool)
    ensures
        r == any_domain_covers(host@, views(custom@)),
{
    let h = to_chars(host);
    any_string_covers(h.as_slice(), custom)
}

pub fn matches_host_chars(url: &[char], hosts: &[&str], custom: &[String]) -> (r: bool)
    ensures
        r == matches_host_spec(url@, str_views(hosts@), views(custom@)),
{
    let lowered = lower_exec(url);
    match extract_host_chars(lowered.as_slice()) {
        None => false,
        Some(h) => any_str_covers(h.as_slice(), hosts) || any_string_covers(h.as_slice(), custom),
    }
}

/// Whether the URL's host belongs to a service (see `matches_host_spec`).
pub fn matches_host(url: &str, hosts: &[&str], custom: &[String]) -> (r: bool)
    ensures
        r == matches_host_spec(url@, str_views(hosts@), views(custom@)),
{
    let u = to_chars(url);
    matches_host_chars(u.as_slice(), hosts, custom)
}

pub fn host_matches_blocked_chars(host: &[char], blocked: &[char]) -> (r: bool)
    ensures
        r == host_matches_blocked_spec(host@, blocked@),
{
    let www = to_chars("www.");
    let h = lower_exec(trim_start_str_exec(host, www.as_slice()));
    let b = lower_exec(trim_start_str_exec(blocked, www.as_slice()));
    host_under_domain_chars(h.as_slice(), b.as_slice())
}

/// Whether `host` falls under the blocked domain `blocked`, ignoring a
/// leading `www.` and letter case.
pub fn host_matches_blocked(host: &str, blocked: &str) -> (r: bool)
    ensures
        r == host_matches_blocked_spec(host@, blocked@),
{
    let h = to_chars(host);
    let b = to_chars(blocked);
    host_matches_blocked_chars(h.as_slice(), b.as_slice())
}

/// Whether a URL's host is covered by a domain of the blocklist.
pub fn is_url_in_blocklist(url: &str, blocklist: &[String]) -> (r: bool)
    ensures
        r == url_in_blocklist_spec(url@, views(blocklist@)),
{
    if blocklist.len() == 0 {
        return false;
    }
    let u = to_chars(url);
    match extract_host_chars(u.as_slice()) {
        None => false,
        Some(h) => {
            let mut k: usize = 0;
            while k < blocklist.len()
                invariant
                    k <= blocklist@.len(),
                    blocklist@.len() > 0,
                    extract_host_spec(url@) == Some(h@),
                    forall|j: int|
                        0 <= j < k ==> !host_matches_blocked_spec(h@, #[trigger] views(blocklist@)[j]),
                decreases blocklist@.len() - k,
            {
                let b = to_chars(blocklist[k].as_str());
                if host_matches_blocked_chars(h.as_slice(), b.as_slice()) {
                    assert(views(blocklist@)[k as int] == blocklist@[k as int]@);
                    assert(host_matches_blocked_spec(h@, views(blocklist@)[k as int]));
                    assert(views(blocklist@).len() > 0);
                    return true;
                }
                k += 1;
            }
            false
        },
    }
}

/// A domain reduced to a bare lowercase host: trimmed, lowercased, without
/// a leading `https://`, `http://` or `www.`, and cut at the first `/` and
/// then at the first `:`.
pub fn normalize_domain(domain: &str) -> (r: String)
    ensures
        r@ == normalize_domain_spec(domain@),
{
    let d = to_chars(domain);
    let l = lower_exec(trim_exec(d.as_slice()));
    let https = to_chars("https://");
    let http = to_chars("http://");
    let www = to_chars("www.");
    let s1 = trim_start_str_exec(l.as_slice(), https.as_slice());
    let s2 = trim_start_str_exec(s1, http.as_slice());
    let s3 = trim_start_str_exec(s2, www.as_slice());
    let slash = to_chars("/");
    let colon = to_chars(":");
    let a = before_first_exec(s3, slash.as_slice());
    let b = before_first_exec(a, colon.as_slice());
    from_chars(b)
}

/// `text.floor_char_boundary(index)`: the largest byte index not above
/// `index` that falls on a character boundary (the length when `index` is
/// past the end).
pub fn floor_char_boundary(text: &str, index: usize) -> (r: usize)
    requires
        text.spec_bytes().len() <= usize::MAX,
    ensures
        index >= text.spec_bytes().len() ==> r == text.spec_bytes().len(),
        index < text.spec_bytes().len() ==> {
            &&& r <= index
            &&& vstd::utf8::is_char_boundary(text.spec_bytes(), r as int)
            &&& forall|j: int|
                r < j <= index ==> !vstd::utf8::is_char_boundary(text.spec_bytes(), j)
        },
{
    let n = text.len();
    proof {
        vstd::utf8::encode_utf8_valid_utf8(text@);
        vstd::utf8::is_char_boundary_start_end_of_seq(text.spec_bytes());
    }
    if index >= n {
        return n;
    }
    let mut i = index;
    while !text.is_char_boundary(i)
        invariant
            i <= index < text.spec_bytes().len(),
            vstd::utf8::is_char_boundary(text.spec_bytes(), 0),
            forall|j: int| i < j <= index ==> !vstd::utf8::is_char_boundary(text.spec_bytes(), j),
        decreases i,
    {
        i -= 1;
    }
    i
}


pub open spec fn not_alnum() -> spec_fn(char) -> bool {
    |c: char| !char_is_alphanumeric(c)
}

pub open spec fn not_alnum_or_slash() -> spec_fn(char) -> bool {
    |c: char| !char_is_alphanumeric(c) && c != '/'
}

/// A URL as it was typed in a message with surrounding punctuation removed:
/// leading characters that are not alphanumeric, and trailing ones that are
/// neither alphanumeric nor `/`.
pub open spec fn clean_media_url_spec(url: Seq<char>) -> Seq<char> {
    drop_while_end(skip_while(url, not_alnum()), not_alnum_or_slash())
}

pub fn clean_media_url_chars(url: &[char]) -> (r: &[char])
    ensures
        r@ == clean_media_url_spec(url@),
{
    let mut a: usize = 0;
    assert(url@.skip(0) =~= url@);
    while a < url.len() && !is_alphanumeric(url[a])
        invariant
            a <= url@.len(),
            skip_while(url@.skip(a as int), not_alnum()) == skip_while(url@, not_alnum()),
        decreases url@.len() - a,
    {
        assert(url@.skip(a as int).skip(1) =~= url@.skip(a + 1));
        a += 1;
    }
    assert(skip_while(url@.skip(a as int), not_alnum()) == url@.skip(a as int));
    let mut b: usize = url.len();
    assert(url@.subrange(a as int, b as int) =~= url@.skip(a as int));
    while b > a && !is_alphanumeric(url[b - 1]) && url[b - 1] != '/'
        invariant
            a <= b <= url@.len(),
            drop_while_end(url@.subrange(a as int, b as int), not_alnum_or_slash())
                == clean_media_url_spec(url@),
        decreases b,
    {
        assert(url@.subrange(a as int, b as int).drop_last() =~= url@.subrange(a as int, b - 1));
        b -= 1;
    }
    vstd::slice::slice_subrange(url, a, b)
}

/// `url` with surrounding punctuation removed (see `clean_media_url_spec`).
pub fn clean_media_url(url: &str) -> (r: String)
    ensures
        r@ == clean_media_url_spec(url@),
{
    let u = to_chars(url);
    from_chars(clean_media_url_chars(u.as_slice()))
}

/// The file extension guessed from a lowercased media URL.
pub open spec fn media_ext_spec(lower_url: Seq<char>) -> Seq<char> {
    if contains(lower_url, ".jpeg"@) || contains(lower_url, ".jpg"@) {
        "jpg"@
    } else if contains(lower_url, ".webp"@) {
        "webp"@
    } else if contains(lower_url, ".png"@) {
        "png"@
    } else if contains(lower_url, ".mp4"@) || contains(lower_url, "video"@) || contains(
        lower_url,
        "/play/"@,
    ) || contains(lower_url, "playwm"@) {
        "mp4"@
    } else {
        "jpg"@
    }
}

/// `{prefix}_{index}.{ext}`, the extension given or else guessed from the URL.
pub open spec fn media_filename_spec(
    prefix: Seq<char>,
    index: nat,
    url: Seq<char>,
    ext_override: Option<Seq<char>>,
) -> Seq<char> {
    let ext = match ext_override {
        Some(e) => e,
        None => media_ext_spec(lower(url)),
    };
    prefix + "_"@ + decimal(index) + "."@ + ext
}

fn has(s: &[char], p: &str) -> (r: bool)
    ensures
        r == contains(s@, p@),
{
    let pc = to_chars(p);
    contains_exec(s, pc.as_slice())
}

fn media_ext(lower_url: &[char]) -> (r: &'static str)
    ensures
        r@ == media_ext_spec(lower_url@),
{
    if has(lower_url, ".jpeg") || has(lower_url, ".jpg") {
        "jpg"
    } else if has(lower_url, ".webp") {
        "webp"
    } else if has(lower_url, ".png") {
        "png"
    } else if has(lower_url, ".mp4") || has(lower_url, "video") || has(lower_url, "/play/")
        || has(lower_url, "playwm") {
        "mp4"
    } else {
        "jpg"
    }
}

/// The attachment file name for the `index`-th media item of a post.
pub fn media_filename(prefix: &str, index: usize, url: &str, ext_override: Option<&str>) -> (r: String)
    ensures
        r@ == media_filename_spec(
            prefix@,
            index as nat,
            url@,
            match ext_override {
                Some(e) => Some(e@),
                None => None,
            },
        ),
{
    let u = to_chars(url);
    let l = lower_exec(u.as_slice());
    let ext: &str = match ext_override {
        Some(e) => e,
        None => media_ext(l.as_slice()),
    };
    let mut r: Vec<char> = to_chars(prefix);
    append_str(&mut r, "_");
    let d = decimal_exec(index as u64);
    append(&mut r, d.as_slice());
    append_str(&mut r, ".");
    append_str(&mut r, ext);
    from_chars(r.as_slice())
}

/// The name-based part of the check that a host may be fetched: not
/// `localhost` and not under `.local`, `.internal`, `.lan` or
/// `.localdomain` (letter case ignored). Addresses written as IP literals
/// are checked before this, where they are parsed.
pub open spec fn is_safe_name_spec(host: Seq<char>) -> bool {
    let l = lower(host);
    !(l == "localhost"@ || crate::text::ends_with(l, ".local"@) || crate::text::ends_with(l, ".internal"@)
        || crate::text::ends_with(l, ".lan"@) || crate::text::ends_with(l, ".localdomain"@))
}

fn ends(s: &[char], p: &str) -> (r: bool)
    ensures
        r == crate::text::ends_with(s@, p@),
{
    let pc = to_chars(p);
    ends_with_exec(s, pc.as_slice())
}

pub fn is_safe_name(host: &str) -> (r: bool)
    ensures
        r == is_safe_name_spec(host@),
{
    let h = to_chars(host);
    let l = lower_exec(h.as_slice());
    let localhost = to_chars("localhost");
    !(eq_exec(l.as_slice(), localhost.as_slice()) || ends(l.as_slice(), ".local") || ends(
        l.as_slice(),
        ".internal",
    ) || ends(l.as_slice(), ".lan") || ends(l.as_slice(), ".localdomain"))
}

/// The per-server switch that a link handler consults before it answers.
pub enum SettingCheck {
    TikTok,
    Instagram,
    Twitter,
    Bsky,
    GitLinks,
    GitDiffs,
    Reddit,
    Streamable,
}


/// The host without a port: the text before the first `:`.
pub open spec fn host_part_spec(host: Seq<char>) -> Seq<char> {
    before_first(host, ":"@)
}

pub fn host_part(host: &str) -> (r: String)
    ensures
        r@ == host_part_spec(host@),
{
    let c = to_chars(host);
    let colon = to_chars(":");
    from_chars(before_first_exec(c.as_slice(), colon.as_slice()))
}

/// One part of a dotted IPv4 address as `Ipv4Addr`'s parser reads it:
/// one to three ASCII digits, no leading zero unless the part is `0`, and
/// at most 255.
pub open spec fn ipv4_octet(p: Seq<char>) -> Option<u8> {
    if 1 <= p.len() <= 3 && all_digits(p) && !(p.len() > 1 && p[0] == '0') && digits_value(p) <= 255 {
        Some(digits_value(p) as u8)
    } else {
        None
    }
}

/// A text read as an IPv4 address: exactly four `.`-separated parts, each
/// an octet.
pub open spec fn parse_ipv4_spec(s: Seq<char>) -> Option<(u8, u8, u8, u8)> {
    let parts = split_seq(s, "."@);
    if parts.len() == 4 {
        match (ipv4_octet(parts[0]), ipv4_octet(parts[1]), ipv4_octet(parts[2]), ipv4_octet(parts[3])) {
            (Some(a), Some(b), Some(c), Some(d)) => Some((a, b, c, d)),
            _ => None,
        }
    } else {
        None
    }
}

fn ipv4_octet_exec(p: &[char]) -> (r: Option<u8>)
    ensures
        r == ipv4_octet(p@),
{
    if p.len() < 1 || p.len() > 3 {
        return None;
    }
    let mut i: usize = 0;
    while i < p.len()
        invariant
            i <= p@.len(),
            forall|j: int| 0 <= j < i ==> is_digit(#[trigger] p@[j]),
        decreases p@.len() - i,
    {
        if !('0' <= p[i] && p[i] <= '9') {
            return None;
        }
        i = i + 1;
    }
    assert(all_digits(p@));
    if p.len() > 1 && p[0] == '0' {
        return None;
    }
    assert(unsigned_digits(p@) == p@);
    match parse_u64(p) {
        Some(v) => if v <= 255 {
            Some(v as u8)
        } else {
            None
        },
        None => None,
    }
}

/// Reads `s` as a dotted IPv4 address (see `parse_ipv4_spec`).
pub fn parse_ipv4(s: &str) -> (r: Option<(u8, u8, u8, u8)>)
    ensures
        r == parse_ipv4_spec(s@),
{
    let c = to_chars(s);
    let dot = to_chars(".");
    proof {
        reveal_strlit(".");
    }
    let parts = split_exec(c.as_slice(), dot.as_slice());
    if parts.len() != 4 {
        return None;
    }
    proof {
        assert(vv(parts@).len() == parts@.len());
        assert(forall|i: int| 0 <= i < 4 ==> vv(parts@)[i] == parts@[i]@);
    }
    let a = ipv4_octet_exec(parts[0].as_slice());
    let b = ipv4_octet_exec(parts[1].as_slice());
    let cc = ipv4_octet_exec(parts[2].as_slice());
    let d = ipv4_octet_exec(parts[3].as_slice());
    match (a, b, cc, d) {
        (Some(a), Some(b), Some(cc), Some(d)) => Some((a, b, cc, d)),
        _ => None,
    }
}

/// An IPv4 address that may be fetched: not loopback (127/8), private
/// (10/8, 172.16/12, 192.168/16), link-local (169.254/16), unspecified
/// (0.0.0.0) or broadcast (255.255.255.255).
pub open spec fn safe_v4(a: u8, b: u8, c: u8, d: u8) -> bool {
    &&& a != 127
    &&& !(a == 10 || (a == 172 && 16 <= b <= 31) || (a == 192 && b == 168))
    &&& !(a == 169 && b == 254)
    &&& !(a == 0 && b == 0 && c == 0 && d == 0)
    &&& !(a == 255 && b == 255 && c == 255 && d == 255)
}

/// Whether a host may be fetched. Its part before any port is read as an
/// IPv4 address and judged by its range, or else as a name by
/// `is_safe_name`. (That part holds no `:`, and an IPv6 address cannot be
/// written without one, so no IPv6 address reaches this check.)
pub open spec fn is_safe_host_spec(host: Seq<char>) -> bool {
    let h = host_part_spec(host);
    match parse_ipv4_spec(h) {
        Some((a, b, c, d)) => safe_v4(a, b, c, d),
        None => is_safe_name_spec(h),
    }
}

pub fn is_safe_host(host: &str) -> (r: bool)
    ensures
        r == is_safe_host_spec(host@),
{
    let h = host_part(host);
    match parse_ipv4(h.as_str()) {
        Some((a, b, c, d)) => {
            a != 127 && !(a == 10 || (a == 172 && 16 <= b && b <= 31) || (a == 192 && b == 168)) && !(a == 169
                && b == 254) && !(a == 0 && b == 0 && c == 0 && d == 0) && !(a == 255 && b == 255 && c == 255 && d
                == 255)
        },
        None => is_safe_name(h.as_str()),
    }
}

/// Whether a user may use the bot: not when the user is on the blacklist.
/// `blacklisted` is `None` when the lookup failed, which lets the user
/// through; without a database everyone passes.
pub fn pre_check_user(has_pool: bool, blacklisted: Option<bool>) -> (r: bool)
    ensures
        r == !(has_pool && blacklisted == Some(true)),
{
    !(has_pool && match blacklisted {
        Some(b) => b,
        None => false,
    })
}

/// Whether a link handler answers a message: never a bot's; without a
/// database always; otherwise not for a blacklisted user, nor in a
/// blacklisted server or one that switched the service off. Each `None` is
/// a lookup that failed and is let through.
pub open spec fn pre_check_spec(
    author_is_bot: bool,
    has_pool: bool,
    user_blacklisted: Option<bool>,
    in_guild: bool,
    server_blacklisted: Option<bool>,
    enabled: Option<bool>,
) -> bool {
    if author_is_bot {
        false
    } else if !has_pool {
        true
    } else if user_blacklisted == Some(true) {
        false
    } else if !in_guild {
        true
    } else if server_blacklisted == Some(true) {
        false
    } else {
        enabled != Some(false)
    }
}

pub fn pre_check(
    author_is_bot: bool,
    has_pool: bool,
    user_blacklisted: Option<bool>,
    in_guild: bool,
    server_blacklisted: Option<bool>,
    enabled: Option<bool>,
) -> (r: bool)
    ensures
        r == pre_check_spec(author_is_bot, has_pool, user_blacklisted, in_guild, server_blacklisted, enabled),
{
    if author_is_bot {
        return false;
    }
    if !has_pool {
        return true;
    }
    if user_blacklisted == Some(true) {
        return false;
    }
    if !in_guild {
        return true;
    }
    if server_blacklisted == Some(true) {
        return false;
    }
    match enabled {
        Some(e) => e,
        None => true,
    }
}

/// The stored switch of a service, for the services that have one in the
/// server settings.
pub fn setting_enabled(settings: &crate::commands::ServerSettings, check: &SettingCheck) -> (r: Option<bool>)
    ensures
        r == match check {
            SettingCheck::Twitter => Some(settings.twitter_enabled),
            SettingCheck::GitLinks => Some(settings.git_links_enabled),
            SettingCheck::GitDiffs => Some(settings.git_diffs_enabled),
            SettingCheck::TikTok => Some(settings.tiktok_enabled),
            SettingCheck::Instagram => Some(settings.instagram_enabled),
            _ => None,
        },
{
    match check {
        SettingCheck::Twitter => Some(settings.twitter_enabled),
        SettingCheck::GitLinks => Some(settings.git_links_enabled),
        SettingCheck::GitDiffs => Some(settings.git_diffs_enabled),
        SettingCheck::TikTok => Some(settings.tiktok_enabled),
        SettingCheck::Instagram => Some(settings.instagram_enabled),
        _ => None,
    }
}


/// What a link gives a fetcher to start from: the id it names, a short or
/// share link that has to be followed first, or nothing it can use.
pub enum FetchTarget {
    Id(String),
    Redirect,
    Unknown,
}

}
