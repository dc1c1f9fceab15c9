//! Properties that hold across the library's operations: how the throttles
//! and caches answer after a write and what an eviction may drop, how
//! reminder delays read, what the link scans, the blocklist and the
//! run-time host table guarantee, that normalizing a domain or cleaning a
//! media URL twice changes nothing, how a diff page button turns the page,
//! and that replies fit in a message.
use vstd::prelude::*;
use crate::cache::{
    cached_pages, elapsed_secs, throttle_allows, was_handled_spec, DIFF_CACHE_TTL_SECONDS,
    HANDLED_MESSAGE_TTL_SECONDS, evicted, is_oldest, keeps, restrict_by, Keep, lemma_evicted_bound,
};
use crate::commands::{duration_scan, parse_duration_spec, unit_secs};
use crate::num::{all_digits, decimal, digits_value, is_digit, lemma_decimal_digits, lemma_parse_decimal, parse_u64_spec};
use crate::text::{
    ascii_lower_char, before_first, byte_len, find, join, contains, matches_at, char_is_alphanumeric, lemma_ascii_byte_len, lemma_byte_len_concat, lemma_find, lower,
    skip_while, starts_with, trim, trim_start_str, drop_while_end, ws_pred, is_ws,
};
use crate::git_diff::chunk_pages_spec;
use crate::scan::{scan, LinkService};
use crate::shared::{
    extract_host_spec, host_matches_blocked_spec, host_under_domain_spec, normalize_domain_spec, url_in_blocklist_spec,
    any_domain_covers, service_hosts_spec, clean_media_url_spec, not_alnum, not_alnum_or_slash,
};
use crate::git_diff::CommitView;
use crate::pagination::{
    decode_diff_spec, diff_id_spec, diff_id_fits, decoded_commit, lock_allows, nav_target_spec, with_footer_spec,
    lemma_diff_button_round_trip, lemma_footer_round_trip, ButtonAction, DiffButtonView, PageNav,
    first_page_message_spec, lemma_footer_bytes, sent_by_footer_spec, snippet_message_spec, DISCORD_MESSAGE_LIMIT,
    TRUNCATED_MESSAGE_LIMIT,
};
use crate::commands::truncate_bytes;
use crate::git_file::lemma_chars_for_bytes;

verus! {

/// Once a key is let through at `now`, the throttle refuses it until
/// `window` whole seconds have passed, and lets it through from then on.
pub proof fn lemma_throttle_window(m: Map<Seq<char>, (u64, ())>, key: Seq<char>, now: u64, later: u64, window: u64)
    requires
        m.dom().contains(key),
        m[key].0 == now,
    ensures
        throttle_allows(m, key, later, window) <==> elapsed_secs(now, later) >= window,
{
}

/// A message marked handled at `now` reads as handled for the time-to-live
/// and no longer after it, whatever the eviction before the mark left.
pub proof fn lemma_handled_window(mid: Map<Seq<char>, (u64, ())>, id: u64, now: u64, later: u64)
    ensures
        was_handled_spec(mid.insert(decimal(id as nat), (now, ())), id, later) <==> elapsed_secs(now, later)
            < HANDLED_MESSAGE_TTL_SECONDS,
{
}

/// Diff pages cached at `now` are read back unchanged while fresh, and not
/// at all once older than the time-to-live.
pub proof fn lemma_diff_cache_read_after_write(
    mid: Map<Seq<char>, (u64, Vec<String>)>,
    key: Seq<char>,
    pages: Vec<String>,
    now: u64,
    later: u64,
)
    ensures
        cached_pages(mid.insert(key, (now, pages)), key, later) == if elapsed_secs(now, later)
            <= DIFF_CACHE_TTL_SECONDS {
            Some(pages@)
        } else {
            None
        },
{
}

/// With one file per page, the pages are the rendered files themselves.
pub proof fn lemma_one_file_per_page(pages: Seq<Seq<char>>)
    ensures
        chunk_pages_spec(pages, 1) == pages,
    decreases pages.len(),
{
    if pages.len() > 0 {
        assert(join(pages.take(1), "\n\n"@) == pages[0]) by {
            assert(pages.take(1).len() == 1);
        }
        if pages.len() > 1 {
            lemma_one_file_per_page(pages.skip(1));
            assert(seq![pages[0]] + pages.skip(1) =~= pages);
        } else {
            assert(join(pages, "\n\n"@) == pages[0]);
            assert(seq![pages[0]] =~= pages);
        }
    }
}

/// Digits are neither whitespace nor changed by lowercasing.
proof fn lemma_digits_plain(d: Seq<char>)
    requires
        d.len() > 0,
        all_digits(d),
    ensures
        trim(d) == d,
        lower(d) == d,
{
    assert(!is_ws(d[0]));
    assert(!is_ws(d.last()));
    assert(skip_while(d, ws_pred()) == d);
    assert(drop_while_end(d, ws_pred()) == d);
    assert(lower(d) =~= d);
}

/// Reading digits alone adds nothing to the total and keeps them as the
/// pending number.
proof fn lemma_scan_digits(d: Seq<char>)
    requires
        all_digits(d),
    ensures
        duration_scan(d) == Some((0nat, d)),
    decreases d.len(),
{
    if d.len() > 0 {
        lemma_scan_digits(d.drop_last());
        assert(d.drop_last().push(d.last()) =~= d);
    } else {
        assert(d =~= Seq::<char>::empty());
    }
}

/// A bare number is read as that many minutes.
pub proof fn lemma_bare_minutes(n: u64)
    requires
        n * 60 <= u64::MAX,
    ensures
        parse_duration_spec(decimal(n as nat)) == Some((n * 60) as u64),
{
    let d = decimal(n as nat);
    lemma_decimal_digits(n as nat);
    lemma_digits_plain(d);
    lemma_parse_decimal(n);
}

/// A number followed by a unit letter is read as that many units.
pub proof fn lemma_number_and_unit(n: u64, c: char, u: nat)
    requires
        unit_secs(c) == Some(u),
        0 < n * u <= u64::MAX,
    ensures
        parse_duration_spec(decimal(n as nat).push(c)) == Some((n * u) as u64),
{
    let d = decimal(n as nat);
    let s = d.push(c);
    lemma_decimal_digits(n as nat);
    lemma_parse_decimal(n);
    assert(!is_ws(s[0]));
    assert(!is_ws(s.last()));
    assert(skip_while(s, ws_pred()) == s);
    assert(drop_while_end(s, ws_pred()) == s);
    assert(trim(s) == s);
    assert(lower(s) =~= s);
    crate::num::lemma_parse_needs_digits(s, s.len() - 1);
    lemma_scan_digits(d);
    assert(s.drop_last() =~= d);
    assert(n * u >= n) by (nonlinear_arith)
        requires
            n * u > 0,
            u > 0,
    ;
}

/// The links a scan finds are distinct.
pub proof fn lemma_scan_distinct(ws: Seq<Seq<char>>, service: LinkService, custom: Seq<Seq<char>>)
    ensures
        forall|i: int, j: int|
            0 <= i < j < scan(ws, service, custom).len() ==> scan(ws, service, custom)[i] != scan(
                ws,
                service,
                custom,
            )[j],
    decreases ws.len(),
{
    if ws.len() > 0 {
        lemma_scan_distinct(ws.drop_last(), service, custom);
        let prev = scan(ws.drop_last(), service, custom);
        let r = scan(ws, service, custom);
        assert forall|i: int, j: int| 0 <= i < j < r.len() implies r[i] != r[j] by {
            if j == prev.len() {
                assert(r[i] == prev[i]);
                assert(prev.contains(prev[i]));
            } else {
                assert(r[i] == prev[i] && r[j] == prev[j]);
            }
        }
    }
}

/// A host blocks itself: a link whose host is on the blocklist is refused.
pub proof fn lemma_listed_host_blocked(url: Seq<char>, blocklist: Seq<Seq<char>>, k: int)
    requires
        0 <= k < blocklist.len(),
        extract_host_spec(url) == Some(blocklist[k]),
    ensures
        url_in_blocklist_spec(url, blocklist),
{
    assert(host_matches_blocked_spec(blocklist[k], blocklist[k]));
}

/// A code snippet reply always fits in one Discord message, whether or not
/// its body had to be cut.
pub proof fn lemma_snippet_fits(response: Seq<char>, user: u64)
    ensures
        byte_len(snippet_message_spec(response, user)) <= DISCORD_MESSAGE_LIMIT,
{
    lemma_footer_bytes(user);
    let footer = sent_by_footer_spec(user);
    let max_body = DISCORD_MESSAGE_LIMIT - byte_len(footer);
    if byte_len(response) <= max_body {
        lemma_byte_len_concat(response, footer);
    } else {
        let cut: int = if TRUNCATED_MESSAGE_LIMIT <= max_body - 30 {
            TRUNCATED_MESSAGE_LIMIT as int
        } else {
            max_body - 30
        };
        let kept = truncate_bytes(response, cut as nat);
        lemma_chars_for_bytes(response, cut as nat);
        assert(byte_len(kept) <= cut);
        let note = "...\n```\n(Content too long)"@;
        reveal_strlit("...\n```\n(Content too long)");
        assert forall|i: int| 0 <= i < note.len() implies (#[trigger] note[i] as u32) < 128 by {}
        lemma_ascii_byte_len(note);
        lemma_byte_len_concat(kept, note);
        lemma_byte_len_concat(kept + note, footer);
    }
}

/// The first page of a paged reply, when it is sent at all, fits in one
/// Discord message.
pub proof fn lemma_first_page_fits(page: Seq<char>, user: u64)
    ensures
        first_page_message_spec(page, user) matches Some(m) ==> byte_len(m) <= DISCORD_MESSAGE_LIMIT,
{
    lemma_byte_len_concat(page, sent_by_footer_spec(user));
}

/// Removing a repeated prefix leaves a suffix of the text, which no longer
/// starts with the prefix.
proof fn lemma_trim_start_suffix(s: Seq<char>, p: Seq<char>) -> (j: int)
    ensures
        0 <= j <= s.len(),
        trim_start_str(s, p) == s.skip(j),
        p.len() > 0 ==> !starts_with(trim_start_str(s, p), p),
    decreases s.len(),
{
    if p.len() == 0 || !starts_with(s, p) {
        assert(s.skip(0) =~= s);
        0
    } else {
        let rest = s.skip(p.len() as int);
        let j2 = lemma_trim_start_suffix(rest, p);
        assert(rest.skip(j2) =~= s.skip(p.len() + j2));
        p.len() + j2
    }
}

/// The text before the first occurrence of a pattern is a prefix.
proof fn lemma_before_first_prefix(s: Seq<char>, p: Seq<char>) -> (j: int)
    ensures
        0 <= j <= s.len(),
        before_first(s, p) == s.take(j),
{
    lemma_find(s, p);
    match find(s, p) {
        Some(i) => i,
        None => {
            assert(s.take(s.len() as int) =~= s);
            s.len() as int
        },
    }
}

/// Every character is already lowercase (in the ASCII sense).
pub open spec fn is_lowered(s: Seq<char>) -> bool {
    forall|i: int| 0 <= i < s.len() ==> ascii_lower_char(#[trigger] s[i]) == s[i]
}

proof fn lemma_lower_is_lowered(s: Seq<char>)
    ensures
        is_lowered(lower(s)),
{
    assert forall|i: int| 0 <= i < lower(s).len() implies ascii_lower_char(#[trigger] lower(s)[i]) == lower(s)[i] by {
        let c = s[i];
        if 'A' <= c && c <= 'Z' {
            assert(((c as u32) + 32) as char == lower(s)[i]);
        }
    }
}

proof fn lemma_lower_concat(a: Seq<char>, b: Seq<char>)
    ensures
        lower(a + b) == lower(a) + lower(b),
{
    assert(lower(a + b) =~= lower(a) + lower(b));
}

/// A domain as the settings store it is lowercase and does not start with
/// `www.`.
proof fn lemma_normalized_shape(typed: Seq<char>)
    ensures
        is_lowered(normalize_domain_spec(typed)),
        lower(normalize_domain_spec(typed)) == normalize_domain_spec(typed),
        !starts_with(normalize_domain_spec(typed), "www."@),
{
    reveal_strlit("www.");
    let l = lower(trim(typed));
    lemma_lower_is_lowered(trim(typed));
    let s1 = trim_start_str(l, "https://"@);
    let j1 = lemma_trim_start_suffix(l, "https://"@);
    let s2 = trim_start_str(s1, "http://"@);
    let j2 = lemma_trim_start_suffix(s1, "http://"@);
    let w = trim_start_str(s2, "www."@);
    let j3 = lemma_trim_start_suffix(s2, "www."@);
    let b1 = before_first(w, "/"@);
    let k1 = lemma_before_first_prefix(w, "/"@);
    let d = before_first(b1, ":"@);
    let k2 = lemma_before_first_prefix(b1, ":"@);
    assert(is_lowered(d)) by {
        assert forall|i: int| 0 <= i < d.len() implies ascii_lower_char(#[trigger] d[i]) == d[i] by {
            assert(d[i] == l[j1 + j2 + j3 + i]);
        }
    }
    assert(lower(d) =~= d);
    if starts_with(d, "www."@) {
        assert(d.subrange(0, 4) =~= w.subrange(0, 4));
    }
}

/// Removing leading `www.` from a subdomain of `d` (which does not itself
/// start with `www.`) leaves `d` or another subdomain of it.
proof fn lemma_www_trim_keeps_domain(a: Seq<char>, d: Seq<char>) -> (b: Option<Seq<char>>)
    requires
        !starts_with(d, "www."@),
    ensures
        match b {
            None => trim_start_str(a + "."@ + d, "www."@) == d,
            Some(x) => trim_start_str(a + "."@ + d, "www."@) == x + "."@ + d,
        },
    decreases a.len(),
{
    reveal_strlit("www.");
    reveal_strlit(".");
    let h = a + "."@ + d;
    if !starts_with(h, "www."@) {
        Some(a)
    } else if a.len() >= 4 {
        assert(trim_start_str(h, "www."@) == trim_start_str(h.skip(4), "www."@));
        assert(h.skip(4) =~= a.skip(4) + "."@ + d);
        lemma_www_trim_keeps_domain(a.skip(4), d)
    } else {
        assert(trim_start_str(h, "www."@) == trim_start_str(h.skip(4), "www."@));
        assert(h[a.len() as int] == '.');
        assert(h.subrange(0, 4)[a.len() as int] == "www."@[a.len() as int]);
        assert(a.len() == 3);
        assert(h.skip(4) =~= d);
        assert(trim_start_str(d, "www."@) == d);
        None
    }
}

/// Blocking a domain blocks its subdomains too: a link to any subdomain of
/// a domain on the blocklist, as the settings store it, is refused.
pub proof fn lemma_subdomain_blocked(url: Seq<char>, sub: Seq<char>, blocklist: Seq<Seq<char>>, k: int, typed: Seq<char>)
    requires
        0 <= k < blocklist.len(),
        blocklist[k] == normalize_domain_spec(typed),
        extract_host_spec(url) == Some(sub + "."@ + blocklist[k]),
    ensures
        url_in_blocklist_spec(url, blocklist),
{
    reveal_strlit("www.");
    reveal_strlit(".");
    let d = blocklist[k];
    lemma_normalized_shape(typed);
    let h = sub + "."@ + d;
    assert(trim_start_str(d, "www."@) == d);
    let t = trim_start_str(h, "www."@);
    match lemma_www_trim_keeps_domain(sub, d) {
        None => {
            assert(host_under_domain_spec(lower(t), lower(d)));
        },
        Some(x) => {
            lemma_lower_concat(x + "."@, d);
            lemma_lower_concat(x, "."@);
            assert(lower("."@) =~= "."@);
            let lt = lower(t);
            assert(lt == lower(x) + "."@ + d);
            assert(lt.subrange(lt.len() - d.len(), lt.len() as int) =~= d);
            assert(lt[lt.len() - d.len() - 1] == '.');
            assert(host_under_domain_spec(lt, d));
        },
    }
    assert(host_matches_blocked_spec(h, blocklist[k]));
}

/// A text without whitespace is its own trim.
proof fn lemma_trim_plain(s: Seq<char>)
    requires
        forall|i: int| 0 <= i < s.len() ==> !is_ws(#[trigger] s[i]),
    ensures
        trim(s) == s,
{
    if s.len() > 0 {
        assert(!is_ws(s[0]));
        assert(!is_ws(s[s.len() - 1]));
    }
    assert(skip_while(s, ws_pred()) == s);
    assert(drop_while_end(s, ws_pred()) == s);
}

/// Before the first `c` of a text, no `c` occurs.
proof fn lemma_before_first_char(s: Seq<char>, c: char) -> (j: int)
    ensures
        0 <= j <= s.len(),
        before_first(s, seq![c]) == s.take(j),
        forall|i: int| 0 <= i < j ==> s[i] != c,
{
    let p = seq![c];
    lemma_find(s, p);
    match find(s, p) {
        Some(i) => {
            assert forall|k: int| 0 <= k < i implies s[k] != c by {
                if s[k] == c {
                    assert(s.subrange(k, k + 1) =~= p);
                    assert(matches_at(s, p, k));
                }
            }
            i
        },
        None => {
            assert forall|k: int| 0 <= k < s.len() implies s[k] != c by {
                if s[k] == c {
                    assert(s.subrange(k, k + 1) =~= p);
                    assert(matches_at(s, p, k));
                }
            }
            assert(s.take(s.len() as int) =~= s);
            s.len() as int
        },
    }
}

/// A text without `c` is all of its own text before the first `c`.
proof fn lemma_no_char_before_first(s: Seq<char>, c: char)
    requires
        forall|i: int| 0 <= i < s.len() ==> s[i] != c,
    ensures
        before_first(s, seq![c]) == s,
{
    let p = seq![c];
    lemma_find(s, p);
    match find(s, p) {
        Some(i) => {
            assert(matches_at(s, p, i));
            assert(s.subrange(i, i + 1)[0] == s[i]);
        },
        None => {},
    }
}

/// Normalizing a domain that holds no whitespace gives a domain that
/// normalizing leaves as it is: lowercase, without `/` and without `:`.
pub proof fn lemma_normalize_domain_idempotent(domain: Seq<char>)
    requires
        forall|i: int| 0 <= i < domain.len() ==> !is_ws(#[trigger] domain[i]),
    ensures
        normalize_domain_spec(normalize_domain_spec(domain)) == normalize_domain_spec(domain),
        is_lowered(normalize_domain_spec(domain)),
        forall|i: int|
            0 <= i < normalize_domain_spec(domain).len() ==> #[trigger] normalize_domain_spec(domain)[i] != '/'
                && normalize_domain_spec(domain)[i] != ':',
{
    reveal_strlit("/");
    reveal_strlit(":");
    reveal_strlit("https://");
    reveal_strlit("http://");
    reveal_strlit("www.");
    lemma_trim_plain(domain);
    let l = lower(domain);
    assert forall|i: int| 0 <= i < l.len() implies !is_ws(#[trigger] l[i]) by {
        let c = domain[i];
        if 'A' <= c && c <= 'Z' {
            assert(l[i] == ((c as u32) + 32) as char);
        }
    }
    let s1 = trim_start_str(l, "https://"@);
    let j1 = lemma_trim_start_suffix(l, "https://"@);
    let s2 = trim_start_str(s1, "http://"@);
    let j2 = lemma_trim_start_suffix(s1, "http://"@);
    let w = trim_start_str(s2, "www."@);
    let j3 = lemma_trim_start_suffix(s2, "www."@);
    assert("/"@ == seq!['/']);
    assert(":"@ == seq![':']);
    let b1 = before_first(w, "/"@);
    let k1 = lemma_before_first_char(w, '/');
    let d = before_first(b1, ":"@);
    let k2 = lemma_before_first_char(b1, ':');
    assert(d == normalize_domain_spec(domain));
    lemma_normalized_shape(domain);
    assert forall|i: int| 0 <= i < d.len() implies #[trigger] d[i] != '/' && d[i] != ':' && !is_ws(d[i]) by {
        assert(d[i] == b1[i]);
        assert(b1[i] == w[i]);
        assert(w[i] == l[j1 + j2 + j3 + i]);
    }
    lemma_trim_plain(d);
    if starts_with(d, "https://"@) {
        assert(d.subrange(0, 8)[5] == d[5]);
    }
    if starts_with(d, "http://"@) {
        assert(d.subrange(0, 7)[4] == d[4]);
    }
    lemma_no_char_before_first(d, '/');
    lemma_no_char_before_first(d, ':');
}

/// Dropping leading characters while `f` holds drops a prefix, and stops at
/// a character where `f` fails (or at the end).
proof fn lemma_skip_while_suffix(s: Seq<char>, f: spec_fn(char) -> bool) -> (j: int)
    ensures
        0 <= j <= s.len(),
        skip_while(s, f) == s.skip(j),
        j < s.len() ==> !f(s[j]),
    decreases s.len(),
{
    if s.len() > 0 && f(s[0]) {
        let j2 = lemma_skip_while_suffix(s.skip(1), f);
        assert(s.skip(1).skip(j2) =~= s.skip(1 + j2));
        1 + j2
    } else {
        assert(s.skip(0) =~= s);
        0
    }
}

/// Dropping trailing characters while `f` holds keeps a prefix that ends
/// with a character where `f` fails (or is empty).
proof fn lemma_drop_while_end_prefix(s: Seq<char>, f: spec_fn(char) -> bool) -> (j: int)
    ensures
        0 <= j <= s.len(),
        drop_while_end(s, f) == s.take(j),
        j > 0 ==> !f(s[j - 1]),
    decreases s.len(),
{
    if s.len() > 0 && f(s.last()) {
        let j2 = lemma_drop_while_end_prefix(s.drop_last(), f);
        assert(s.drop_last().take(j2) =~= s.take(j2));
        j2
    } else {
        assert(s.take(s.len() as int) =~= s);
        s.len() as int
    }
}

/// A cleaned media URL is a piece of the text it came from, starts with a
/// letter or digit and ends with one or with `/` (or is empty), and
/// cleaning it again changes nothing.
pub proof fn lemma_clean_media_url_idempotent(url: Seq<char>)
    ensures
        clean_media_url_spec(clean_media_url_spec(url)) == clean_media_url_spec(url),
        exists|i: int, j: int| 0 <= i <= j <= url.len() && clean_media_url_spec(url) == url.subrange(i, j),
        clean_media_url_spec(url).len() > 0 ==> char_is_alphanumeric(clean_media_url_spec(url)[0]) && (
        char_is_alphanumeric(clean_media_url_spec(url).last()) || clean_media_url_spec(url).last() == '/'),
{
    let s = skip_while(url, not_alnum());
    let j1 = lemma_skip_while_suffix(url, not_alnum());
    let r = drop_while_end(s, not_alnum_or_slash());
    let j2 = lemma_drop_while_end_prefix(s, not_alnum_or_slash());
    assert(r == clean_media_url_spec(url));
    assert(r =~= url.subrange(j1, j1 + j2));
    if r.len() > 0 {
        assert(r[0] == s[0]);
        assert(r.last() == s[j2 - 1]);
        assert(skip_while(r, not_alnum()) == r);
        assert(drop_while_end(r, not_alnum_or_slash()) == r);
    } else {
        assert(skip_while(r, not_alnum()) == r);
        assert(drop_while_end(r, not_alnum_or_slash()) == r);
    }
}

/// An eviction leaves fewer than `max_entries` entries; below the limit it
/// changes nothing; what it keeps, it keeps unchanged; and of the entries
/// that were still fresh it drops at most one, the oldest of them.
pub proof fn lemma_eviction_drops_little<V>(
    before: Map<Seq<char>, (u64, V)>,
    after: Map<Seq<char>, (u64, V)>,
    max_entries: nat,
    ttl: u64,
    now: u64,
)
    requires
        evicted(before, after, max_entries, ttl, now),
        before.dom().finite(),
        before.dom().len() <= max_entries,
        max_entries > 0,
    ensures
        after.dom().len() < max_entries,
        before.dom().len() < max_entries ==> after == before,
        forall|k: Seq<char>| #[trigger] after.dom().contains(k) ==> before.dom().contains(k) && after[k] == before[k],
        forall|a: Seq<char>, b: Seq<char>|
            before.dom().contains(a) && before.dom().contains(b) && keeps(Keep::Fresh(ttl), before[a].0, now)
                && keeps(Keep::Fresh(ttl), before[b].0, now) && !#[trigger] after.dom().contains(a)
                && !#[trigger] after.dom().contains(b) ==> a == b,
        forall|a: Seq<char>|
            before.dom().contains(a) && keeps(Keep::Fresh(ttl), before[a].0, now) && !#[trigger] after.dom().contains(a)
                ==> is_oldest(restrict_by(before, Keep::Fresh(ttl), now), a),
{
    lemma_evicted_bound(before, after, max_entries, ttl, now);
    let f = restrict_by(before, Keep::Fresh(ttl), now);
    if before.dom().len() >= max_entries {
        if f.dom().len() < max_entries || f.dom().len() == 0 {
            assert(after == f);
        } else {
            let k = choose|k: Seq<char>| is_oldest(f, k) && after == f.remove(k);
            assert forall|a: Seq<char>|
                before.dom().contains(a) && keeps(Keep::Fresh(ttl), before[a].0, now) && !#[trigger] after.dom().contains(
                    a,
                ) implies a == k by {
                assert(f.dom().contains(a));
            }
        }
    }
}

/// The run-time domains that the table's rows give a service cover a host
/// exactly when one row names that service and a domain which, lowercased,
/// the host is under.
pub proof fn lemma_service_hosts_rows(rows: Seq<(Seq<char>, Seq<char>)>, service: Seq<char>, host: Seq<char>)
    ensures
        any_domain_covers(host, service_hosts_spec(rows, service)) <==> exists|i: int|
            0 <= i < rows.len() && (#[trigger] rows[i]).0 == service && host_under_domain_spec(host, lower(rows[i].1)),
    decreases rows.len(),
{
    let hs = service_hosts_spec(rows, service);
    if rows.len() > 0 {
        let d = rows.drop_last();
        let rest = service_hosts_spec(d, service);
        lemma_service_hosts_rows(d, service, host);
        let n = rows.len() - 1;
        if any_domain_covers(host, hs) {
            let k = choose|k: int| 0 <= k < hs.len() && host_under_domain_spec(host, #[trigger] hs[k]);
            if rows.last().0 == service && k == rest.len() {
                assert(rows[n] == rows.last());
            } else {
                assert(hs[k] == rest[k]);
                assert(any_domain_covers(host, rest));
                let i = choose|i: int|
                    0 <= i < d.len() && (#[trigger] d[i]).0 == service && host_under_domain_spec(host, lower(d[i].1));
                assert(rows[i] == d[i]);
            }
        }
        if exists|i: int|
            0 <= i < rows.len() && (#[trigger] rows[i]).0 == service && host_under_domain_spec(host, lower(rows[i].1)) {
            let i = choose|i: int|
                0 <= i < rows.len() && (#[trigger] rows[i]).0 == service && host_under_domain_spec(host, lower(rows[i].1));
            if i == n {
                assert(hs[rest.len() as int] == lower(rows[i].1));
            } else {
                assert(d[i] == rows[i]);
                let k = choose|k: int| 0 <= k < rest.len() && host_under_domain_spec(host, #[trigger] rest[k]);
                assert(hs[k] == rest[k]);
            }
        }
    }
}

/// A diff page button, pressed by a user the view is not locked away from,
/// is read back as the direction, reference, page and lock it was made
/// with; and when the fetched page list has the page the button leads to,
/// the message becomes that page followed by the "Sent by" footer that the
/// message carried.
pub proof fn lemma_diff_page_turn(
    d: PageNav,
    c: CommitView,
    page: usize,
    lock: Option<u64>,
    user: u64,
    pages: Seq<Seq<char>>,
    shown: Seq<char>,
    sender: u64,
)
    requires
        diff_id_fits(c),
        page <= u64::MAX,
        lock_allows(lock, user),
    ensures
        decode_diff_spec(diff_id_spec(d, c, page as nat, lock), user) == ButtonAction::Turn(
            DiffButtonView { direction: d, commit: decoded_commit(c), page, lock },
        ),
        forall|q: usize|
            nav_target_spec(d, page) == Some(q) && q < pages.len() ==> with_footer_spec(
                #[trigger] pages[q as int],
                shown + sent_by_footer_spec(sender),
            ) == pages[q as int] + sent_by_footer_spec(sender),
{
    lemma_diff_button_round_trip(d, c, page, lock, user);
    assert forall|q: usize|
        nav_target_spec(d, page) == Some(q) && q < pages.len() implies with_footer_spec(
        #[trigger] pages[q as int],
        shown + sent_by_footer_spec(sender),
    ) == pages[q as int] + sent_by_footer_spec(sender) by {
        lemma_footer_round_trip(shown, pages[q as int], sender);
    }
}

/// Asked about oneself, the `timezone` command never shows a difference:
/// its reply is the one it gives without any lookup of the caller.
pub proof fn lemma_timezone_self(
    name: Seq<char>,
    id: u64,
    target: crate::clock::TzLookup,
    caller: Option<crate::clock::TzLookup>,
    now_utc: i64,
)
    ensures
        crate::clock::timezone_reply_spec(name, id, id, target, caller, now_utc)
            == crate::clock::timezone_reply_spec(name, id, id, target, None, now_utc),
{
}

} // verus!
