//! Paged replies: the ids carried by the Previous and Next buttons, how a
//! pressed button is read back, and the footer that follows a reply from
//! page to page.
//!
//! A diff button id reads
//! `diff:{prev|next}:{gh|gH|gl|gL}[|host]:{owner}:{repo}:{commit}[|filter]_{page}[:{user}]`
//! and a file button id `file:{prev|next}:{key}_{page}[:{user}]`; the
//! trailing user id locks navigation to the person who posted the link.
use vstd::prelude::*;
use crate::text::{
    matches_at, append, append_str, find, from_chars, rfind, rsplit_once, rsplit_once_exec, split_once,
    split_once_exec, starts_with, starts_with_str, strip_prefix, strip_prefix_exec, to_chars,
};
use crate::num::{decimal, decimal_exec, parse_u64, parse_u64_spec};
use crate::cache::elapsed_secs;
use crate::git_diff::{CommitDiff, CommitView, GitPlatform, opt_view};

verus! {

/// How long a cached page list stays valid, in seconds.
pub const PAGE_CACHE_TTL_SECONDS: u64 = 600;

/// Whether a page list stamped at `stamp` (milliseconds) has expired at `now`.
pub fn is_cache_expired(stamp: u64, now: u64) -> (r: bool)
    ensures
        r == (elapsed_secs(stamp, now) > PAGE_CACHE_TTL_SECONDS),
{
    crate::cache::elapsed_secs_exec(stamp, now) > PAGE_CACHE_TTL_SECONDS
}

/// Which way a button turns the page.
#[derive(PartialEq, Eq, Structural, Clone, Copy, Debug)]
pub enum PageNav {
    Prev,
    Next,
}

pub open spec fn nav_word(d: PageNav) -> Seq<char> {
    match d {
        PageNav::Prev => "prev"@,
        PageNav::Next => "next"@,
    }
}

/// The page a button leads to: one back (staying at the first page) or one
/// forward. `None` when there is no next index (no page list is that long).
pub open spec fn nav_target_spec(d: PageNav, page: usize) -> Option<usize> {
    match d {
        PageNav::Prev => Some(if page == 0 { 0 } else { (page - 1) as usize }),
        PageNav::Next => if page < usize::MAX {
            Some((page + 1) as usize)
        } else {
            None
        },
    }
}

pub fn nav_target(d: PageNav, page: usize) -> (r: Option<usize>)
    ensures
        r == nav_target_spec(d, page),
{
    match d {
        PageNav::Prev => Some(page.saturating_sub(1)),
        PageNav::Next => if page < usize::MAX {
            Some(page + 1)
        } else {
            None
        },
    }
}

/// What a pressed button asks for.
#[derive(Debug)]
pub enum ButtonAction<T> {
    /// The id is not one of these buttons, or is malformed: nothing happens.
    Ignore,
    /// The view is locked to another user.
    Locked,
    /// Turn the page.
    Turn(T),
}

/// `s.rsplit_once(':')` with the part after it read as a user id, when it
/// is one.
pub open spec fn split_lock_spec(s: Seq<char>) -> (Seq<char>, Option<u64>) {
    match rsplit_once(s, ":"@) {
        Some((payload, uid)) => match parse_u64_spec(uid) {
            Some(id) => (payload, Some(id)),
            None => (s, None),
        },
        None => (s, None),
    }
}

fn split_lock_exec(s: &[char]) -> (r: (&[char], Option<u64>))
    ensures
        (r.0@, r.1) == split_lock_spec(s@),
{
    let colon = to_chars(":");
    match rsplit_once_exec(s, colon.as_slice()) {
        Some((payload, uid)) => match parse_u64(uid) {
            Some(id) => (payload, Some(id)),
            None => (s, None),
        },
        None => (s, None),
    }
}

/// Splits a trailing `:{user id}` off a button payload.
pub fn split_lock_suffix(rest: &str) -> (r: (String, Option<u64>))
    ensures
        (r.0@, r.1) == split_lock_spec(rest@),
{
    let s = to_chars(rest);
    let (p, l) = split_lock_exec(s.as_slice());
    (from_chars(p), l)
}

/// `s.parse::<usize>()`.
pub open spec fn parse_usize_spec(s: Seq<char>) -> Option<usize> {
    match parse_u64_spec(s) {
        Some(v) => if v <= usize::MAX {
            Some(v as usize)
        } else {
            None
        },
        None => None,
    }
}

fn parse_usize(s: &[char]) -> (r: Option<usize>)
    ensures
        r == parse_usize_spec(s@),
{
    match parse_u64(s) {
        Some(v) => if v <= usize::MAX as u64 {
            Some(v as usize)
        } else {
            None
        },
        None => None,
    }
}

/// Whether `user` may turn the pages of a view locked to `lock`.
pub open spec fn lock_allows(lock: Option<u64>, user: u64) -> bool {
    match lock {
        Some(id) => id == user,
        None => true,
    }
}

/// The parts of a pagination row: the two button ids, the `n/total` label,
/// and which buttons are disabled.
pub struct PaginationRow {
    pub prev_id: String,
    pub next_id: String,
    pub label: String,
    pub prev_disabled: bool,
    pub next_disabled: bool,
}

pub open spec fn page_label_spec(current: nat, total: nat) -> Seq<char> {
    decimal(current + 1) + "/"@ + decimal(total)
}

/// A row of Previous, `n/total` and Next for the page `current_page`.
pub fn pagination_row(prev_id: String, next_id: String, current_page: usize, total_pages: usize) -> (r:
    PaginationRow)
    requires
        total_pages >= 1,
        current_page < u64::MAX,
        total_pages <= u64::MAX,
    ensures
        r.prev_id@ == prev_id@,
        r.next_id@ == next_id@,
        r.label@ == page_label_spec(current_page as nat, total_pages as nat),
        r.prev_disabled == (current_page == 0),
        r.next_disabled == (current_page >= total_pages - 1),
{
    let mut label = decimal_exec(current_page as u64 + 1);
    append_str(&mut label, "/");
    let t = decimal_exec(total_pages as u64);
    append(&mut label, t.as_slice());
    PaginationRow {
        prev_id,
        next_id,
        label: from_chars(label.as_slice()),
        prev_disabled: current_page == 0,
        next_disabled: current_page >= total_pages - 1,
    }
}

/// The line that records who posted the link a reply answers.
pub open spec fn sent_by_footer_spec(user: u64) -> Seq<char> {
    "\n-# Sent by <@"@ + decimal(user as nat) + ">"@
}

pub fn sent_by_footer(user: u64) -> (r: String)
    ensures
        r@ == sent_by_footer_spec(user),
{
    let mut out = to_chars("\n-# Sent by <@");
    let d = decimal_exec(user);
    append(&mut out, d.as_slice());
    append_str(&mut out, ">");
    from_chars(out.as_slice())
}

/// The most bytes a message may hold.
pub const DISCORD_MESSAGE_LIMIT: usize = 2000;

/// The first message of a paged reply: its first page with the poster's
/// footer, or nothing when that would pass the message limit.
pub open spec fn first_page_message_spec(page: Seq<char>, user: u64) -> Option<Seq<char>> {
    if crate::text::byte_len(page) + crate::text::byte_len(sent_by_footer_spec(user)) > DISCORD_MESSAGE_LIMIT {
        None
    } else {
        Some(page + sent_by_footer_spec(user))
    }
}

pub fn first_page_message(page: &str, user: u64) -> (r: Option<String>)
    ensures
        opt_view(r) == first_page_message_spec(page@, user),
{
    let first = to_chars(page);
    let footer = sent_by_footer(user);
    let fc = to_chars(footer.as_str());
    let n = match crate::text::byte_len_upto(first.as_slice(), DISCORD_MESSAGE_LIMIT) {
        Some(n) => n,
        None => return None,
    };
    match crate::text::byte_len_upto(fc.as_slice(), DISCORD_MESSAGE_LIMIT - n) {
        Some(_) => {
            let mut out = first;
            append(&mut out, fc.as_slice());
            Some(from_chars(out.as_slice()))
        },
        None => None,
    }
}

/// The poster's footer takes at most 140 bytes.
pub proof fn lemma_footer_bytes(user: u64)
    ensures
        crate::text::byte_len(sent_by_footer_spec(user)) <= 140,
{
    reveal_strlit("\n-# Sent by <@");
    reveal_strlit(">");
    crate::num::lemma_decimal_len_u64(user);
    crate::text::lemma_byte_len_le_4(sent_by_footer_spec(user));
}

/// A code snippet with the poster's footer, cut when it would pass the
/// message limit: the body keeps at most `TRUNCATED_MESSAGE_LIMIT` bytes
/// (and 30 fewer than the room left by the footer), ends at a character
/// boundary, and says that it was cut.
pub open spec fn snippet_message_spec(response: Seq<char>, user: u64) -> Seq<char> {
    let footer = sent_by_footer_spec(user);
    let max_body = DISCORD_MESSAGE_LIMIT - crate::text::byte_len(footer);
    let body = if crate::text::byte_len(response) <= max_body {
        response
    } else {
        let cut = if TRUNCATED_MESSAGE_LIMIT <= max_body - 30 {
            TRUNCATED_MESSAGE_LIMIT as int
        } else {
            max_body - 30
        };
        crate::commands::truncate_bytes(response, cut as nat) + "...\n```\n(Content too long)"@
    };
    body + footer
}

pub const TRUNCATED_MESSAGE_LIMIT: usize = 1950;

pub fn snippet_message(response: &str, user: u64) -> (r: String)
    ensures
        r@ == snippet_message_spec(response@, user),
{
    let footer = sent_by_footer(user);
    let fc = to_chars(footer.as_str());
    proof {
        lemma_footer_bytes(user);
    }
    let flen = crate::text::byte_len_exec(fc.as_slice());
    let max_body = DISCORD_MESSAGE_LIMIT - flen;
    let rc = to_chars(response);
    let mut out = match crate::text::byte_len_upto(rc.as_slice(), max_body) {
        Some(_) => rc,
        None => {
            let cut = if TRUNCATED_MESSAGE_LIMIT <= max_body - 30 {
                TRUNCATED_MESSAGE_LIMIT
            } else {
                max_body - 30
            };
            let mut b = crate::commands::truncate_bytes_exec(rc.as_slice(), cut);
            append_str(&mut b, "...\n```\n(Content too long)");
            b
        },
    };
    append(&mut out, fc.as_slice());
    from_chars(out.as_slice())
}

/// The last "Sent by" footer of a message, up to its closing `>`.
pub open spec fn extract_footer_spec(content: Seq<char>) -> Option<Seq<char>> {
    match rfind(content, "\n-# Sent by <@"@) {
        Some(start) => {
            let rest = content.skip(start);
            match find(rest, ">"@) {
                Some(end) => Some(rest.take(end + 1)),
                None => None,
            }
        },
        None => None,
    }
}

pub fn extract_sent_by_footer(content: &str) -> (r: Option<String>)
    ensures
        match r {
            Some(f) => extract_footer_spec(content@) == Some(f@),
            None => extract_footer_spec(content@) is None,
        },
{
    let c = to_chars(content);
    let marker = to_chars("\n-# Sent by <@");
    let start = match crate::text::rfind_exec(c.as_slice(), marker.as_slice()) {
        Some(s) => s,
        None => return None,
    };
    proof {
        crate::text::lemma_rfind(c@, marker@);
    }
    let rest = vstd::slice::slice_subrange(c.as_slice(), start, c.len());
    assert(rest@ =~= c@.skip(start as int));
    let gt = to_chars(">");
    let end = match crate::text::find_exec(rest, gt.as_slice()) {
        Some(e) => e,
        None => return None,
    };
    proof {
        crate::text::lemma_find(rest@, gt@);
        reveal_strlit(">");
    }
    let f = vstd::slice::slice_subrange(rest, 0, end + 1);
    assert(f@ =~= rest@.take(end + 1));
    Some(from_chars(f))
}

/// A page followed by the footer carried over from the message it
/// replaces, if that message had one.
pub open spec fn with_footer_spec(page: Seq<char>, old_content: Seq<char>) -> Seq<char> {
    match extract_footer_spec(old_content) {
        Some(f) => page + f,
        None => page,
    }
}

/// The new content of a paged message turned to `page`: the page's text
/// and the footer of the message it replaces. `None` when the list has no
/// such page.
pub fn page_update(pages: &Vec<String>, page: usize, old_content: &str) -> (r: Option<String>)
    ensures
        match r {
            Some(s) => page < pages@.len() && s@ == with_footer_spec(pages@[page as int]@, old_content@),
            None => page >= pages@.len(),
        },
{
    if page >= pages.len() {
        return None;
    }
    let mut out = to_chars(pages[page].as_str());
    if let Some(f) = extract_sent_by_footer(old_content) {
        append_str(&mut out, f.as_str());
    }
    Some(from_chars(out.as_slice()))
}

/// The platform code of a diff button: `gh`, `gH`, `gl` or `gL`.
pub open spec fn platform_code(platform: GitPlatform, is_compare: bool) -> Seq<char> {
    match (platform, is_compare) {
        (GitPlatform::GitHub, false) => "gh"@,
        (GitPlatform::GitHub, true) => "gH"@,
        (GitPlatform::GitLab, false) => "gl"@,
        (GitPlatform::GitLab, true) => "gL"@,
    }
}

/// `sep` and the text, or nothing when the text is absent or empty.
pub open spec fn opt_part(sep: Seq<char>, o: Option<Seq<char>>) -> Seq<char> {
    match o {
        Some(s) => if s.len() == 0 {
            seq![]
        } else {
            sep + s
        },
        None => seq![],
    }
}

pub open spec fn lock_part(lock: Option<u64>) -> Seq<char> {
    match lock {
        Some(id) => ":"@ + decimal(id as nat),
        None => seq![],
    }
}

/// The id of a diff button.
pub open spec fn diff_id_spec(d: PageNav, c: CommitView, page: nat, lock: Option<u64>) -> Seq<char> {
    "diff:"@ + nav_word(d) + ":"@ + platform_code(c.platform, c.is_compare) + opt_part("|"@, c.host)
        + ":"@ + c.owner + ":"@ + c.repo + ":"@ + c.commit + opt_part("|"@, c.file_filter) + "_"@
        + decimal(page) + lock_part(lock)
}

fn push_opt_part(out: &mut Vec<char>, o: &Option<String>)
    ensures
        final(out)@ == old(out)@ + opt_part("|"@, opt_view(*o)),
{
    if let Some(s) = o {
        let c = to_chars(s.as_str());
        if c.len() > 0 {
            append_str(out, "|");
            append(out, c.as_slice());
        }
    }
}

fn push_lock_part(out: &mut Vec<char>, lock: Option<u64>)
    ensures
        final(out)@ == old(out)@ + lock_part(lock),
{
    if let Some(id) = lock {
        append_str(out, ":");
        let d = decimal_exec(id);
        append(out, d.as_slice());
    }
}

/// The id of the Previous or Next button of a diff view.
pub fn diff_button_id(d: PageNav, commit: &CommitDiff, page: usize, lock: Option<u64>) -> (r: String)
    requires
        page <= u64::MAX,
    ensures
        r@ == diff_id_spec(d, commit.view(), page as nat, lock),
{
    let mut out = to_chars("diff:");
    match d {
        PageNav::Prev => append_str(&mut out, "prev"),
        PageNav::Next => append_str(&mut out, "next"),
    }
    append_str(&mut out, ":");
    match (commit.platform, commit.is_compare) {
        (GitPlatform::GitHub, false) => append_str(&mut out, "gh"),
        (GitPlatform::GitHub, true) => append_str(&mut out, "gH"),
        (GitPlatform::GitLab, false) => append_str(&mut out, "gl"),
        (GitPlatform::GitLab, true) => append_str(&mut out, "gL"),
    }
    push_opt_part(&mut out, &commit.host);
    append_str(&mut out, ":");
    append_str(&mut out, commit.owner.as_str());
    append_str(&mut out, ":");
    append_str(&mut out, commit.repo.as_str());
    append_str(&mut out, ":");
    append_str(&mut out, commit.commit.as_str());
    push_opt_part(&mut out, &commit.file_filter);
    append_str(&mut out, "_");
    let pd = decimal_exec(page as u64);
    append(&mut out, pd.as_slice());
    push_lock_part(&mut out, lock);
    from_chars(out.as_slice())
}

/// The pagination row of a diff view at `current_page` of `total_pages`.
pub fn create_pagination_buttons(current_page: usize, total_pages: usize, commit: &CommitDiff, lock_user_id:
    Option<u64>) -> (r: PaginationRow)
    requires
        total_pages >= 1,
        current_page < u64::MAX,
        total_pages <= u64::MAX,
    ensures
        r.prev_id@ == diff_id_spec(PageNav::Prev, commit.view(), current_page as nat, lock_user_id),
        r.next_id@ == diff_id_spec(PageNav::Next, commit.view(), current_page as nat, lock_user_id),
        r.label@ == page_label_spec(current_page as nat, total_pages as nat),
        r.prev_disabled == (current_page == 0),
        r.next_disabled == (current_page >= total_pages - 1),
{
    let prev = diff_button_id(PageNav::Prev, commit, current_page, lock_user_id);
    let next = diff_button_id(PageNav::Next, commit, current_page, lock_user_id);
    pagination_row(prev, next, current_page, total_pages)
}

/// A pressed diff button: where it turns, the reference it shows, the page
/// it was on, and the user the view is locked to.
pub struct DiffButton {
    pub direction: PageNav,
    pub commit: CommitDiff,
    pub page: usize,
    pub lock: Option<u64>,
}

pub struct DiffButtonView {
    pub direction: PageNav,
    pub commit: CommitView,
    pub page: usize,
    pub lock: Option<u64>,
}

impl DiffButton {
    pub open spec fn view(&self) -> DiffButtonView {
        DiffButtonView { direction: self.direction, commit: self.commit.view(), page: self.page, lock: self.lock }
    }
}

/// The platform, compare flag and host read from the first field of a diff
/// button id. A GitLab id without a host means `gitlab.com`.
pub open spec fn decode_platform(ph: Seq<char>) -> Option<(GitPlatform, bool, Option<Seq<char>>)> {
    match strip_prefix(ph, "gh"@) {
        Some(r) => Some((GitPlatform::GitHub, false, strip_prefix(r, "|"@))),
        None => match strip_prefix(ph, "gH"@) {
            Some(r) => Some((GitPlatform::GitHub, true, strip_prefix(r, "|"@))),
            None => match strip_prefix(ph, "gl"@) {
                Some(r) => Some((GitPlatform::GitLab, false, Some(default_gitlab(strip_prefix(r, "|"@))))),
                None => match strip_prefix(ph, "gL"@) {
                    Some(r) => Some((GitPlatform::GitLab, true, Some(default_gitlab(strip_prefix(r, "|"@))))),
                    None => None,
                },
            },
        },
    }
}

pub open spec fn default_gitlab(h: Option<Seq<char>>) -> Seq<char> {
    match h {
        Some(h) => h,
        None => "gitlab.com"@,
    }
}

/// The direction named by a button id's prefix.
pub open spec fn id_direction(id: Seq<char>, kind: Seq<char>) -> Option<PageNav> {
    if starts_with(id, kind + ":prev:"@) {
        Some(PageNav::Prev)
    } else if starts_with(id, kind + ":next:"@) {
        Some(PageNav::Next)
    } else {
        None
    }
}

/// The commit part and the optional file filter of `{commit}[|filter]`.
pub open spec fn split_filter(cf: Seq<char>) -> (Seq<char>, Option<Seq<char>>) {
    match split_once(cf, "|"@) {
        Some((c, f)) => (c, Some(f)),
        None => (cf, None),
    }
}

/// What pressing the diff button `id` asks of `user`, read field by field
/// in the order the handler reads them: the lock is checked before the
/// platform and the page.
pub open spec fn decode_diff_spec(id: Seq<char>, user: u64) -> ButtonAction<DiffButtonView> {
    match id_direction(id, "diff"@) {
        None => ButtonAction::Ignore,
        Some(d) => {
            let rest = id.skip(10);
            match split_once(rest, ":"@) {
                None => ButtonAction::Ignore,
                Some((ph, r1)) => match split_once(r1, ":"@) {
                    None => ButtonAction::Ignore,
                    Some((owner, r2)) => match split_once(r2, ":"@) {
                        None => ButtonAction::Ignore,
                        Some((repo, tail)) => {
                            let (cfp, lock) = split_lock_spec(tail);
                            if !lock_allows(lock, user) {
                                ButtonAction::Locked
                            } else {
                                match decode_platform(ph) {
                                    None => ButtonAction::Ignore,
                                    Some((platform, is_compare, host)) => match rsplit_once(cfp, "_"@) {
                                        None => ButtonAction::Ignore,
                                        Some((cf, p)) => match parse_usize_spec(p) {
                                            None => ButtonAction::Ignore,
                                            Some(page) => ButtonAction::Turn(
                                                DiffButtonView {
                                                    direction: d,
                                                    commit: CommitView {
                                                        platform,
                                                        owner,
                                                        repo,
                                                        commit: split_filter(cf).0,
                                                        diff_hash: None,
                                                        host,
                                                        file_filter: split_filter(cf).1,
                                                        is_compare,
                                                    },
                                                    page,
                                                    lock,
                                                },
                                            ),
                                        },
                                    },
                                }
                            }
                        },
                    },
                },
            }
        },
    }
}

pub open spec fn diff_action_view(a: ButtonAction<DiffButton>) -> ButtonAction<DiffButtonView> {
    match a {
        ButtonAction::Ignore => ButtonAction::Ignore,
        ButtonAction::Locked => ButtonAction::Locked,
        ButtonAction::Turn(b) => ButtonAction::Turn(b.view()),
    }
}

fn decode_platform_exec(ph: &[char]) -> (r: Option<(GitPlatform, bool, Option<Vec<char>>)>)
    ensures
        match r {
            Some((p, c, h)) => decode_platform(ph@) == Some((p, c, match h {
                Some(v) => Some(v@),
                None => None::<Seq<char>>,
            })),
            None => decode_platform(ph@) is None,
        },
{
    let bar = to_chars("|");
    let codes = [to_chars("gh"), to_chars("gH"), to_chars("gl"), to_chars("gL")];
    if let Some(r) = strip_prefix_exec(ph, codes[0].as_slice()) {
        let h = match strip_prefix_exec(r, bar.as_slice()) { Some(h) => Some(vstd::slice::slice_to_vec(h)), None => None };
        return Some((GitPlatform::GitHub, false, h));
    }
    if let Some(r) = strip_prefix_exec(ph, codes[1].as_slice()) {
        let h = match strip_prefix_exec(r, bar.as_slice()) { Some(h) => Some(vstd::slice::slice_to_vec(h)), None => None };
        return Some((GitPlatform::GitHub, true, h));
    }
    let (is_compare, r): (bool, &[char]) = match strip_prefix_exec(ph, codes[2].as_slice()) {
        Some(r) => (false, r),
        None => match strip_prefix_exec(ph, codes[3].as_slice()) {
            Some(r) => (true, r),
            None => return None,
        },
    };
    let h = match strip_prefix_exec(r, bar.as_slice()) {
        Some(h) => vstd::slice::slice_to_vec(h),
        None => to_chars("gitlab.com"),
    };
    Some((GitPlatform::GitLab, is_compare, Some(h)))
}

fn opt_vec_string(o: Option<Vec<char>>) -> (r: Option<String>)
    ensures
        opt_view(r) == match o {
            Some(v) => Some(v@),
            None => None::<Seq<char>>,
        },
{
    match o {
        Some(v) => Some(from_chars(v.as_slice())),
        None => None,
    }
}

/// Reads a pressed diff button (see `decode_diff_spec`).
pub fn decode_diff_button(custom_id: &str, user: u64) -> (r: ButtonAction<DiffButton>)
    ensures
        diff_action_view(r) == decode_diff_spec(custom_id@, user),
{
    let id = to_chars(custom_id);
    proof {
        reveal_strlit("diff");
        reveal_strlit(":prev:");
        reveal_strlit(":next:");
        reveal_strlit("diff:prev:");
        reveal_strlit("diff:next:");
        assert("diff"@ + ":prev:"@ =~= "diff:prev:"@);
        assert("diff"@ + ":next:"@ =~= "diff:next:"@);
    }
    let d = if starts_with_str(id.as_slice(), "diff:prev:") {
        PageNav::Prev
    } else if starts_with_str(id.as_slice(), "diff:next:") {
        PageNav::Next
    } else {
        return ButtonAction::Ignore;
    };
    let rest = vstd::slice::slice_subrange(id.as_slice(), 10, id.len());
    assert(rest@ =~= id@.skip(10));
    let colon = to_chars(":");
    let (ph, r1) = match split_once_exec(rest, colon.as_slice()) { Some(x) => x, None => return ButtonAction::Ignore };
    let (owner, r2) = match split_once_exec(r1, colon.as_slice()) { Some(x) => x, None => return ButtonAction::Ignore };
    let (repo, tail) = match split_once_exec(r2, colon.as_slice()) { Some(x) => x, None => return ButtonAction::Ignore };
    let (cfp, lock) = split_lock_exec(tail);
    if let Some(l) = lock {
        if l != user {
            return ButtonAction::Locked;
        }
    }
    let (platform, is_compare, host) = match decode_platform_exec(ph) { Some(x) => x, None => return ButtonAction::Ignore };
    let under = to_chars("_");
    let (cf, p) = match rsplit_once_exec(cfp, under.as_slice()) { Some(x) => x, None => return ButtonAction::Ignore };
    let page = match parse_usize(p) { Some(v) => v, None => return ButtonAction::Ignore };
    let bar = to_chars("|");
    let (c, f): (&[char], Option<Vec<char>>) = match split_once_exec(cf, bar.as_slice()) {
        Some((c, f)) => (c, Some(vstd::slice::slice_to_vec(f))),
        None => (cf, None),
    };
    ButtonAction::Turn(DiffButton {
        direction: d,
        commit: CommitDiff {
            platform,
            owner: from_chars(owner),
            repo: from_chars(repo),
            commit: from_chars(c),
            diff_hash: None,
            host: opt_vec_string(host),
            file_filter: opt_vec_string(f),
            is_compare,
        },
        page,
        lock,
    })
}

/// The id of a file button.
pub open spec fn file_id_spec(d: PageNav, key: Seq<char>, page: nat, lock: Option<u64>) -> Seq<char> {
    "file:"@ + nav_word(d) + ":"@ + key + "_"@ + decimal(page) + lock_part(lock)
}

fn file_button_id(d: PageNav, key: &str, page: usize, lock: Option<u64>) -> (r: String)
    requires
        page <= u64::MAX,
    ensures
        r@ == file_id_spec(d, key@, page as nat, lock),
{
    let mut out = to_chars("file:");
    match d {
        PageNav::Prev => append_str(&mut out, "prev"),
        PageNav::Next => append_str(&mut out, "next"),
    }
    append_str(&mut out, ":");
    append_str(&mut out, key);
    append_str(&mut out, "_");
    let pd = decimal_exec(page as u64);
    append(&mut out, pd.as_slice());
    push_lock_part(&mut out, lock);
    from_chars(out.as_slice())
}

/// The pagination row of a file view cached under `key`.
pub fn create_file_pagination_buttons(key: &str, current_page: usize, total_pages: usize, lock_user_id: Option<
    u64>) -> (r: PaginationRow)
    requires
        total_pages >= 1,
        current_page < u64::MAX,
        total_pages <= u64::MAX,
    ensures
        r.prev_id@ == file_id_spec(PageNav::Prev, key@, current_page as nat, lock_user_id),
        r.next_id@ == file_id_spec(PageNav::Next, key@, current_page as nat, lock_user_id),
        r.label@ == page_label_spec(current_page as nat, total_pages as nat),
        r.prev_disabled == (current_page == 0),
        r.next_disabled == (current_page >= total_pages - 1),
{
    let prev = file_button_id(PageNav::Prev, key, current_page, lock_user_id);
    let next = file_button_id(PageNav::Next, key, current_page, lock_user_id);
    pagination_row(prev, next, current_page, total_pages)
}

/// A pressed file button.
pub struct FileButton {
    pub direction: PageNav,
    pub key: String,
    pub page: usize,
    pub lock: Option<u64>,
}

pub struct FileButtonView {
    pub direction: PageNav,
    pub key: Seq<char>,
    pub page: usize,
    pub lock: Option<u64>,
}

impl FileButton {
    pub open spec fn view(&self) -> FileButtonView {
        FileButtonView { direction: self.direction, key: self.key@, page: self.page, lock: self.lock }
    }
}

pub open spec fn file_action_view(a: ButtonAction<FileButton>) -> ButtonAction<FileButtonView> {
    match a {
        ButtonAction::Ignore => ButtonAction::Ignore,
        ButtonAction::Locked => ButtonAction::Locked,
        ButtonAction::Turn(b) => ButtonAction::Turn(b.view()),
    }
}

/// What pressing the file button `id` asks of `user`.
pub open spec fn decode_file_spec(id: Seq<char>, user: u64) -> ButtonAction<FileButtonView> {
    match id_direction(id, "file"@) {
        None => ButtonAction::Ignore,
        Some(d) => {
            let (kp, lock) = split_lock_spec(id.skip(10));
            if !lock_allows(lock, user) {
                ButtonAction::Locked
            } else {
                match rsplit_once(kp, "_"@) {
                    None => ButtonAction::Ignore,
                    Some((key, p)) => match parse_usize_spec(p) {
                        None => ButtonAction::Ignore,
                        Some(page) => ButtonAction::Turn(FileButtonView { direction: d, key, page, lock }),
                    },
                }
            }
        },
    }
}

/// Reads a pressed file button (see `decode_file_spec`).
pub fn decode_file_button(custom_id: &str, user: u64) -> (r: ButtonAction<FileButton>)
    ensures
        file_action_view(r) == decode_file_spec(custom_id@, user),
{
    let id = to_chars(custom_id);
    proof {
        reveal_strlit("file");
        reveal_strlit(":prev:");
        reveal_strlit(":next:");
        reveal_strlit("file:prev:");
        reveal_strlit("file:next:");
        assert("file"@ + ":prev:"@ =~= "file:prev:"@);
        assert("file"@ + ":next:"@ =~= "file:next:"@);
    }
    let d = if starts_with_str(id.as_slice(), "file:prev:") {
        PageNav::Prev
    } else if starts_with_str(id.as_slice(), "file:next:") {
        PageNav::Next
    } else {
        return ButtonAction::Ignore;
    };
    let rest = vstd::slice::slice_subrange(id.as_slice(), 10, id.len());
    assert(rest@ =~= id@.skip(10));
    let (kp, lock) = split_lock_exec(rest);
    if let Some(l) = lock {
        if l != user {
            return ButtonAction::Locked;
        }
    }
    let under = to_chars("_");
    let (key, p) = match rsplit_once_exec(kp, under.as_slice()) { Some(x) => x, None => return ButtonAction::Ignore };
    let page = match parse_usize(p) { Some(v) => v, None => return ButtonAction::Ignore };
    ButtonAction::Turn(FileButton { direction: d, key: from_chars(key), page, lock })
}

/// The page shown of a list of `total` pages when `page` is asked for: the
/// last one when it is past the end.
pub fn clamp_page(page: usize, total: usize) -> (r: usize)
    requires
        total >= 1,
    ensures
        r == if page < total { page } else { (total - 1) as usize },
{
    if page < total { page } else { total - 1 }
}

/// Decimal text holds no character other than digits.
proof fn lemma_decimal_lacks(n: nat, c: char)
    requires
        !crate::num::is_digit(c),
    ensures
        crate::text::no_char(decimal(n), c),
{
    crate::num::lemma_decimal_digits(n);
    let d = decimal(n);
    assert forall|i: int| 0 <= i < d.len() implies d[i] != c by {
        assert(crate::num::is_digit(d[i]));
    }
}

/// A page payload `a_{page}` followed by a lock suffix splits back into the
/// payload and the lock.
proof fn lemma_split_lock_of(a: Seq<char>, n: nat, lock: Option<u64>)
    ensures
        split_lock_spec(a + seq!['_'] + decimal(n) + lock_part(lock)) == (a + seq!['_'] + decimal(n), lock),
{
    reveal_strlit(":");
    let x = a + seq!['_'] + decimal(n);
    crate::num::lemma_decimal_digits(n);
    assert(":"@ =~= seq![':']);
    match lock {
        Some(id) => {
            crate::num::lemma_decimal_digits(id as nat);
            crate::num::lemma_parse_decimal(id);
            lemma_decimal_lacks(id as nat, ':');
            assert(":"@ =~= seq![':']);
            assert(x + lock_part(lock) =~= x + seq![':'] + decimal(id as nat));
            crate::text::lemma_rsplit_once_at(x, ':', decimal(id as nat));
        },
        None => {
            assert(x + lock_part(lock) =~= x);
            crate::text::lemma_rsplit_once_parts(x, ':');
            if let Some((y, u)) = rsplit_once(x, seq![':']) {
                let i = y.len() as int;
                assert(x[i] == ':');
                if i >= a.len() {
                    if i > a.len() {
                        assert(x[i] == decimal(n)[i - a.len() - 1]);
                    }
                    assert(false);
                }
                assert(u[a.len() - i - 1] == x[a.len() as int]);
                crate::num::lemma_parse_needs_digits(u, a.len() - i - 1);
            }
        },
    }
}

/// `a_{page}` splits at its last `_` into `a` and the page.
proof fn lemma_split_page(a: Seq<char>, page: usize)
    requires
        page <= u64::MAX,
    ensures
        rsplit_once(a + seq!['_'] + decimal(page as nat), "_"@) == Some((a, decimal(page as nat))),
        parse_usize_spec(decimal(page as nat)) == Some(page),
{
    reveal_strlit("_");
    crate::num::lemma_decimal_digits(page as nat);
    crate::num::lemma_parse_decimal(page as u64);
    lemma_decimal_lacks(page as nat, '_');
    assert("_"@ =~= seq!['_']);
    crate::text::lemma_rsplit_once_at(a, '_', decimal(page as nat));
}

/// The direction named by the prefix of an id made with `nav_word(d)`.
proof fn lemma_id_direction(kind: Seq<char>, d: PageNav, rest: Seq<char>)
    requires
        kind.len() == 4,
    ensures
        id_direction(kind + ":"@ + nav_word(d) + ":"@ + rest, kind) == Some(d),
        (kind + ":"@ + nav_word(d) + ":"@ + rest).skip(10) == rest,
{
    reveal_strlit(":");
    reveal_strlit("prev");
    reveal_strlit("next");
    reveal_strlit(":prev:");
    reveal_strlit(":next:");
    let id = kind + ":"@ + nav_word(d) + ":"@ + rest;
    assert(kind + ":"@ + nav_word(d) + ":"@ + rest =~= (kind + ":"@ + nav_word(d) + ":"@) + rest);
    crate::text::lemma_strip_prefix_concat(kind + ":"@ + nav_word(d) + ":"@, rest);
    match d {
        PageNav::Prev => {
            assert(kind + ":prev:"@ =~= kind + ":"@ + nav_word(d) + ":"@);
        },
        PageNav::Next => {
            assert(kind + ":next:"@ =~= kind + ":"@ + nav_word(d) + ":"@);
            assert(id[5] == 'n');
            assert((kind + ":prev:"@)[5] == 'p');
            assert(!starts_with(id, kind + ":prev:"@));
        },
    }
}

/// A file button is read back as the direction, cache key, page and lock it
/// was made with, for every key; a view locked to someone else is refused.
pub proof fn lemma_file_button_round_trip(d: PageNav, key: Seq<char>, page: usize, lock: Option<u64>, user: u64)
    requires
        page <= u64::MAX,
    ensures
        decode_file_spec(file_id_spec(d, key, page as nat, lock), user) == if lock_allows(lock, user) {
            ButtonAction::Turn(FileButtonView { direction: d, key, page, lock })
        } else {
            ButtonAction::Locked
        },
{
    reveal_strlit("file");
    reveal_strlit("file:");
    reveal_strlit("_");
    reveal_strlit(":");
    let rest = key + seq!['_'] + decimal(page as nat) + lock_part(lock);
    assert("file:"@ =~= "file"@ + ":"@);
    assert("_"@ =~= seq!['_']);
    assert(file_id_spec(d, key, page as nat, lock) =~= "file"@ + ":"@ + nav_word(d) + ":"@ + rest);
    lemma_id_direction("file"@, d, rest);
    lemma_split_lock_of(key, page as nat, lock);
    lemma_split_page(key, page);
}

/// What a diff button id can carry unchanged: no `:` in the host, owner or
/// repository, no `|` in the commit, and no empty host or filter.
pub open spec fn diff_id_fits(c: CommitView) -> bool {
    &&& crate::text::no_char(c.owner, ':')
    &&& crate::text::no_char(c.repo, ':')
    &&& crate::text::no_char(c.commit, '|')
    &&& (c.host matches Some(h) ==> h.len() > 0 && crate::text::no_char(h, ':'))
    &&& (c.file_filter matches Some(f) ==> f.len() > 0)
}

/// The reference a diff button gives back: the same, without the diff
/// anchor, and with the host of a GitLab reference filled in.
pub open spec fn decoded_commit(c: CommitView) -> CommitView {
    CommitView {
        platform: c.platform,
        owner: c.owner,
        repo: c.repo,
        commit: c.commit,
        diff_hash: None,
        host: if c.platform == GitPlatform::GitLab {
            Some(default_gitlab(c.host))
        } else {
            c.host
        },
        file_filter: c.file_filter,
        is_compare: c.is_compare,
    }
}

proof fn lemma_strip_bar(host: Option<Seq<char>>)
    requires
        host matches Some(h) ==> h.len() > 0,
    ensures
        strip_prefix(opt_part("|"@, host), "|"@) == host,
{
    reveal_strlit("|");
    match host {
        Some(h) => crate::text::lemma_strip_prefix_concat("|"@, h),
        None => {},
    }
}

proof fn lemma_decode_platform(platform: GitPlatform, is_compare: bool, host: Option<Seq<char>>)
    requires
        host matches Some(h) ==> h.len() > 0,
    ensures
        decode_platform(platform_code(platform, is_compare) + opt_part("|"@, host)) == Some(
            (platform, is_compare, decoded_commit(CommitView {
                platform,
                owner: seq![],
                repo: seq![],
                commit: seq![],
                diff_hash: None,
                host,
                file_filter: None,
                is_compare,
            }).host),
        ),
{
    reveal_strlit("gh");
    reveal_strlit("gH");
    reveal_strlit("gl");
    reveal_strlit("gL");
    let code = platform_code(platform, is_compare);
    let ph = code + opt_part("|"@, host);
    lemma_strip_bar(host);
    crate::text::lemma_strip_prefix_concat(code, opt_part("|"@, host));
    assert(ph[0] == code[0] && ph[1] == code[1]);
    if code != "gh"@ {
        assert(!starts_with(ph, "gh"@)) by {
            if starts_with(ph, "gh"@) {
                assert(ph.subrange(0, 2)[1] == ph[1]);
                assert(code =~= "gh"@);
            }
        }
    }
    if code != "gH"@ {
        assert(!starts_with(ph, "gH"@)) by {
            if starts_with(ph, "gH"@) {
                assert(ph.subrange(0, 2)[1] == ph[1]);
                assert(code =~= "gH"@);
            }
        }
    }
    if code != "gl"@ {
        assert(!starts_with(ph, "gl"@)) by {
            if starts_with(ph, "gl"@) {
                assert(ph.subrange(0, 2)[1] == ph[1]);
                assert(code =~= "gl"@);
            }
        }
    }
}

pub open spec fn platform_field(c: CommitView) -> Seq<char> {
    platform_code(c.platform, c.is_compare) + opt_part("|"@, c.host)
}

pub open spec fn commit_field(c: CommitView) -> Seq<char> {
    c.commit + opt_part("|"@, c.file_filter)
}

proof fn lemma_platform_field_no_colon(c: CommitView)
    requires
        diff_id_fits(c),
    ensures
        crate::text::no_char(platform_field(c), ':'),
{
    reveal_strlit("|");
    reveal_strlit("gh");
    reveal_strlit("gH");
    reveal_strlit("gl");
    reveal_strlit("gL");
    let ph = platform_field(c);
    let code = platform_code(c.platform, c.is_compare);
    assert forall|i: int| 0 <= i < ph.len() implies ph[i] != ':' by {
        if i >= 2 {
            let h = c.host.unwrap();
            if i > 2 {
                assert(ph[i] == h[i - 3]);
            }
        }
    }
}

proof fn lemma_split_commit_field(c: CommitView)
    requires
        diff_id_fits(c),
    ensures
        split_filter(commit_field(c)) == (c.commit, c.file_filter),
{
    reveal_strlit("|");
    assert("|"@ =~= seq!['|']);
    match c.file_filter {
        Some(f) => {
            assert(commit_field(c) =~= c.commit + seq!['|'] + f);
            crate::text::lemma_split_once_at(c.commit, '|', f);
        },
        None => {
            assert(commit_field(c) =~= c.commit);
            crate::text::lemma_split_once_none(c.commit, '|');
        },
    }
}

/// A diff button is read back as the direction, reference, page and lock it
/// was made with (the reference as `decoded_commit` gives it), whenever the
/// reference fits in an id; a view locked to someone else is refused.
#[verifier::rlimit(50)]
pub proof fn lemma_diff_button_round_trip(
    d: PageNav,
    c: CommitView,
    page: usize,
    lock: Option<u64>,
    user: u64,
)
    requires
        diff_id_fits(c),
        page <= u64::MAX,
    ensures
        decode_diff_spec(diff_id_spec(d, c, page as nat, lock), user) == if lock_allows(lock, user) {
            ButtonAction::Turn(DiffButtonView { direction: d, commit: decoded_commit(c), page, lock })
        } else {
            ButtonAction::Locked
        },
{
    reveal_strlit("diff");
    reveal_strlit("diff:");
    reveal_strlit(":");
    reveal_strlit("_");
    assert(":"@ =~= seq![':']);
    assert("_"@ =~= seq!['_']);
    let ph = platform_field(c);
    let cf = commit_field(c);
    let tail = cf + seq!['_'] + decimal(page as nat) + lock_part(lock);
    let r2 = c.repo + seq![':'] + tail;
    let r1 = c.owner + seq![':'] + r2;
    let rest = ph + seq![':'] + r1;
    let id = diff_id_spec(d, c, page as nat, lock);
    assert(id =~= "diff"@ + ":"@ + nav_word(d) + ":"@ + rest) by {
        assert("diff:"@ =~= "diff"@ + ":"@);
    }
    lemma_id_direction("diff"@, d, rest);
    lemma_platform_field_no_colon(c);
    crate::text::lemma_split_once_at(ph, ':', r1);
    crate::text::lemma_split_once_at(c.owner, ':', r2);
    crate::text::lemma_split_once_at(c.repo, ':', tail);
    lemma_split_lock_of(cf, page as nat, lock);
    lemma_decode_platform(c.platform, c.is_compare, c.host);
    lemma_split_page(cf, page);
    lemma_split_commit_field(c);
}

proof fn lemma_footer_shape(user: u64)
    ensures
        sent_by_footer_spec(user).len() > "\n-# Sent by <@"@.len(),
        starts_with(sent_by_footer_spec(user), "\n-# Sent by <@"@),
        crate::text::no_char(sent_by_footer_spec(user).drop_first(), '\n'),
        sent_by_footer_spec(user) == sent_by_footer_spec(user).drop_last() + ">"@,
        crate::text::no_char(sent_by_footer_spec(user).drop_last(), '>'),
{
    reveal_strlit("\n-# Sent by <@");
    reveal_strlit(">");
    let marker = "\n-# Sent by <@"@;
    let f = sent_by_footer_spec(user);
    let dgt = decimal(user as nat);
    lemma_decimal_lacks(user as nat, '\n');
    lemma_decimal_lacks(user as nat, '>');
    crate::text::lemma_strip_prefix_concat(marker, dgt + ">"@);
    assert(f =~= marker + (dgt + ">"@));
    assert(f =~= f.drop_last() + ">"@);
    let t = f.drop_first();
    assert forall|k: int| 0 <= k < t.len() implies t[k] != '\n' by {
        if k + 1 < marker.len() {
            assert(t[k] == marker[k + 1]);
        } else if k + 1 < marker.len() + dgt.len() {
            assert(t[k] == dgt[k + 1 - marker.len()]);
        }
    }
    let u = f.drop_last();
    assert forall|k: int| 0 <= k < u.len() implies u[k] != '>' by {
        if k < marker.len() {
            assert(u[k] == marker[k]);
        } else {
            assert(u[k] == dgt[k - marker.len()]);
        }
    }
}

/// The last occurrence of a marker that starts with a character found
/// nowhere after it.
proof fn lemma_rfind_last_marker(page: Seq<char>, f: Seq<char>, marker: Seq<char>)
    requires
        marker.len() > 0,
        f.len() >= marker.len(),
        starts_with(f, marker),
        crate::text::no_char(f.drop_first(), marker[0]),
    ensures
        rfind(page + f, marker) == Some(page.len() as int),
{
    let s = page + f;
    crate::text::lemma_rfind(s, marker);
    assert(s.subrange(page.len() as int, page.len() + marker.len() as int) =~= f.subrange(0, marker.len() as int));
    assert(matches_at(s, marker, page.len() as int));
    match rfind(s, marker) {
        Some(i) => {
            if i > page.len() {
                assert(s.subrange(i, i + marker.len())[0] == s[i]);
                assert(s[i] == f.drop_first()[i - page.len() - 1]);
                assert(false);
            }
        },
        None => {},
    }
}

/// The footer added to a reply is the one read back from it, whatever the
/// page before it holds; turning to any other page keeps it.
pub proof fn lemma_footer_round_trip(page: Seq<char>, next: Seq<char>, user: u64)
    ensures
        extract_footer_spec(page + sent_by_footer_spec(user)) == Some(sent_by_footer_spec(user)),
        with_footer_spec(next, page + sent_by_footer_spec(user)) == next + sent_by_footer_spec(user),
{
    reveal_strlit("\n-# Sent by <@");
    reveal_strlit(">");
    let marker = "\n-# Sent by <@"@;
    let f = sent_by_footer_spec(user);
    lemma_footer_shape(user);
    lemma_rfind_last_marker(page, f, marker);
    assert((page + f).skip(page.len() as int) =~= f);
    assert(">"@ =~= seq!['>']);
    assert(f =~= f.drop_last() + seq!['>'] + Seq::<char>::empty());
    crate::text::lemma_split_once_at(f.drop_last(), '>', Seq::<char>::empty());
    assert(split_once(f, ">"@) == Some((f.drop_last(), Seq::<char>::empty())));
    crate::text::lemma_find(f, ">"@);
    let e = find(f, ">"@).unwrap();
    assert(f.take(e).len() == f.drop_last().len());
    assert(e == f.len() - 1);
    assert(f.take(e + 1) =~= f);
    assert(rfind(page + f, marker) == Some(page.len() as int));
    assert(extract_footer_spec(page + f) == Some(f));
}

} // verus!
