//! The rules and reply texts of the bot's commands: reminders, presence,
//! welcome messages, statistics and server settings.
use vstd::prelude::*;
use crate::text::{
    after_last, after_last_exec, append, append_str, byte_len, contains, contains_str, from_chars, lower,
    lower_exec, replace, replace_str, split_once, split_once_exec, starts_with, starts_with_exec, to_chars, trim,
    trim_exec,
};
use crate::num::{all_digits, decimal, decimal_exec, digits_value, is_digit, parse_u64, parse_u64_spec};
use crate::git_file::{chars_for_bytes, chars_for_bytes_exec};
use crate::shared::{str_views, views};

verus! {

// ---------------------------------------------------------------- numbers

/// A signed integer in decimal, with a `-` before a negative one.
pub open spec fn signed_decimal(n: int) -> Seq<char> {
    if n < 0 {
        "-"@ + decimal((-n) as nat)
    } else {
        decimal(n as nat)
    }
}

pub fn signed_decimal_exec(n: i64) -> (r: Vec<char>)
    ensures
        r@ == signed_decimal(n as int),
{
    if n < 0 {
        let m: u64 = (-(n + 1)) as u64 + 1;
        let mut out = to_chars("-");
        append(&mut out, decimal_exec(m).as_slice());
        out
    } else {
        decimal_exec(n as u64)
    }
}

/// The first `n` bytes of a text, cut back to a character boundary.
pub open spec fn truncate_bytes(s: Seq<char>, n: nat) -> Seq<char> {
    if byte_len(s) <= n {
        s
    } else {
        s.take(chars_for_bytes(s, n) as int)
    }
}

pub fn truncate_bytes_exec(s: &[char], n: usize) -> (r: Vec<char>)
    ensures
        r@ == truncate_bytes(s@, n as nat),
{
    if crate::text::byte_len_upto(s, n).is_some() {
        return vstd::slice::slice_to_vec(s);
    }
    let k = chars_for_bytes_exec(s, n);
    let t = vstd::slice::slice_subrange(s, 0, k);
    assert(t@ =~= s@.take(k as int));
    vstd::slice::slice_to_vec(t)
}

// -------------------------------------------------------------- reminders

pub const REMINDER_MIN_SECONDS: u64 = 10;
pub const REMINDER_MAX_SECONDS: u64 = 31536000;
pub const MAX_REMINDER_CHARS: usize = 1000;
pub const MAX_REMINDERS_PER_USER: i64 = 25;

/// The seconds of one duration unit letter.
pub open spec fn unit_secs(c: char) -> Option<nat> {
    if c == 's' {
        Some(1)
    } else if c == 'm' {
        Some(60)
    } else if c == 'h' {
        Some(3600)
    } else if c == 'd' {
        Some(86400)
    } else if c == 'w' {
        Some(604800)
    } else {
        None
    }
}

/// Reading `<number><unit>` pairs: the total so far and the digits of the
/// number being read, or `None` once the text is invalid or overflows.
pub open spec fn duration_scan(s: Seq<char>) -> Option<(nat, Seq<char>)>
    decreases s.len(),
{
    if s.len() == 0 {
        Some((0, seq![]))
    } else {
        match duration_scan(s.drop_last()) {
            None => None,
            Some((total, num)) => {
                let c = s.last();
                if is_digit(c) {
                    Some((total, num.push(c)))
                } else if num.len() == 0 {
                    None
                } else {
                    match (parse_u64_spec(num), unit_secs(c)) {
                        (Some(v), Some(u)) => if v * u <= u64::MAX && total + v * u <= u64::MAX {
                            Some(((total + v * u) as nat, seq![]))
                        } else {
                            None
                        },
                        _ => None,
                    }
                }
            },
        }
    }
}

/// A reminder's delay in seconds: a bare number of minutes, or number and
/// unit pairs (`s`, `m`, `h`, `d`, `w`) such as `1h30m`, case-insensitive;
/// `None` for anything else, for zero, or past `u64::MAX`.
pub open spec fn parse_duration_spec(input: Seq<char>) -> Option<u64> {
    let s = lower(trim(input));
    if s.len() == 0 {
        None
    } else {
        match parse_u64_spec(s) {
            Some(m) => if m * 60 <= u64::MAX {
                Some((m * 60) as u64)
            } else {
                None
            },
            None => match duration_scan(s) {
                Some((total, num)) => if num.len() == 0 && total > 0 {
                    Some(total as u64)
                } else {
                    None
                },
                None => None,
            },
        }
    }
}

fn unit_secs_exec(c: char) -> (r: Option<u64>)
    ensures
        match r {
            Some(u) => unit_secs(c) == Some(u as nat),
            None => unit_secs(c) is None,
        },
{
    if c == 's' {
        Some(1)
    } else if c == 'm' {
        Some(60)
    } else if c == 'h' {
        Some(3600)
    } else if c == 'd' {
        Some(86400)
    } else if c == 'w' {
        Some(604800)
    } else {
        None
    }
}

/// Once reading a prefix has failed, reading the whole text fails.
proof fn lemma_scan_fails_for_good(s: Seq<char>, k: int)
    requires
        0 <= k <= s.len(),
    ensures
        duration_scan(s.take(k)) is None ==> duration_scan(s) is None,
    decreases s.len() - k,
{
    if k < s.len() {
        lemma_scan_fails_for_good(s, k + 1);
        assert(s.take(k + 1).drop_last() =~= s.take(k));
    } else {
        assert(s.take(k) =~= s);
    }
}

/// Reads a reminder's delay (see `parse_duration_spec`).
pub fn parse_duration_secs(input: &str) -> (r: Option<u64>)
    ensures
        r == parse_duration_spec(input@),
{
    let c = to_chars(input);
    let s = lower_exec(trim_exec(c.as_slice()));
    if s.len() == 0 {
        return None;
    }
    if let Some(m) = parse_u64(s.as_slice()) {
        return m.checked_mul(60);
    }
    let mut total: u64 = 0;
    let mut number: Vec<char> = Vec::new();
    let mut i: usize = 0;
    while i < s.len()
        invariant
            i <= s@.len(),
            s@ == lower(trim(input@)),
            s@.len() > 0,
            parse_u64_spec(s@) is None,
            duration_scan(s@.take(i as int)) == Some((total as nat, number@)),
        decreases s@.len() - i,
    {
        proof {
            lemma_scan_fails_for_good(s@, i + 1);
        }
        let ch = s[i];
        assert(s@.take(i + 1).drop_last() =~= s@.take(i as int));
        assert(s@.take(i + 1).last() == ch);
        if '0' <= ch && ch <= '9' {
            number.push(ch);
        } else {
            if number.len() == 0 {
                return None;
            }
            let value = match parse_u64(number.as_slice()) {
                Some(v) => v,
                None => return None,
            };
            let unit = match unit_secs_exec(ch) {
                Some(u) => u,
                None => return None,
            };
            let add = match value.checked_mul(unit) {
                Some(a) => a,
                None => return None,
            };
            total = match total.checked_add(add) {
                Some(t) => t,
                None => return None,
            };
            number = Vec::new();
        }
        i += 1;
    }
    assert(s@.take(s@.len() as int) =~= s@);
    if number.len() > 0 || total == 0 {
        return None;
    }
    Some(total)
}

/// Whether a reminder delay is allowed: from ten seconds to a year.
pub fn reminder_delay_allowed(seconds: u64) -> (r: bool)
    ensures
        r == (REMINDER_MIN_SECONDS <= seconds <= REMINDER_MAX_SECONDS),
{
    REMINDER_MIN_SECONDS <= seconds && seconds <= REMINDER_MAX_SECONDS
}

/// The text stored with a reminder: none when empty, otherwise cut to
/// `MAX_REMINDER_CHARS` bytes at a character boundary.
pub open spec fn reminder_text_spec(text: Option<Seq<char>>) -> Option<Seq<char>> {
    match text {
        Some(t) => if t.len() == 0 {
            None
        } else {
            Some(truncate_bytes(t, MAX_REMINDER_CHARS as nat))
        },
        None => None,
    }
}

pub fn reminder_text(text: Option<&str>) -> (r: Option<String>)
    ensures
        crate::git_diff::opt_view(r) == reminder_text_spec(match text {
            Some(t) => Some(t@),
            None => None,
        }),
{
    match text {
        Some(t) => {
            let c = to_chars(t);
            if c.len() == 0 {
                None
            } else {
                Some(from_chars(truncate_bytes_exec(c.as_slice(), MAX_REMINDER_CHARS).as_slice()))
            }
        },
        None => None,
    }
}

/// One line of the reminder list: id, relative time, and the first 60
/// bytes of the text on one line (`(no text)` when there is none).
pub open spec fn reminder_line_spec(id: i32, remind_at: i64, text: Option<Seq<char>>) -> Seq<char> {
    let flat = replace(match text {
        Some(t) => t,
        None => seq![],
    }, "\n"@, " "@);
    let shown = if flat.len() == 0 {
        "(no text)"@
    } else {
        flat
    };
    "`#"@ + signed_decimal(id as int) + "` <t:"@ + signed_decimal(remind_at as int) + ":R> - "@ + truncate_bytes(
        shown,
        60,
    )
}

pub fn reminder_line(id: i32, remind_at: i64, text: Option<&str>) -> (r: String)
    ensures
        r@ == reminder_line_spec(id, remind_at, match text {
            Some(t) => Some(t@),
            None => None,
        }),
{
    let raw: Vec<char> = match text {
        Some(t) => to_chars(t),
        None => Vec::new(),
    };
    proof {
        reveal_strlit("\n");
    }
    let flat = replace_str(raw.as_slice(), "\n", " ");
    let shown = if flat.len() == 0 { to_chars("(no text)") } else { flat };
    let mut out = to_chars("`#");
    append(&mut out, signed_decimal_exec(id as i64).as_slice());
    append_str(&mut out, "` <t:");
    append(&mut out, signed_decimal_exec(remind_at).as_slice());
    append_str(&mut out, ":R> - ");
    append(&mut out, truncate_bytes_exec(shown.as_slice(), 60).as_slice());
    from_chars(out.as_slice())
}

/// The message that delivers a reminder.
pub open spec fn reminder_message_spec(user: u64, text: Option<Seq<char>>) -> Seq<char> {
    match text {
        Some(t) => "<@"@ + decimal(user as nat) + "> "@ + "Reminder: "@ + t,
        None => "<@"@ + decimal(user as nat) + "> Reminder."@,
    }
}

pub fn reminder_message(user: u64, text: Option<&str>) -> (r: String)
    ensures
        r@ == reminder_message_spec(user, match text {
            Some(t) => Some(t@),
            None => None,
        }),
{
    let mut out = to_chars("<@");
    append(&mut out, decimal_exec(user).as_slice());
    match text {
        Some(t) => {
            append_str(&mut out, "> ");
            append_str(&mut out, "Reminder: ");
            append_str(&mut out, t);
        },
        None => {
            append_str(&mut out, "> Reminder.");
        },
    }
    from_chars(out.as_slice())
}

/// The id of a snooze button.
pub open spec fn snooze_id_spec(secs: u64, user: u64) -> Seq<char> {
    "rem:snooze:"@ + decimal(secs as nat) + ":"@ + decimal(user as nat)
}

pub fn snooze_button_id(secs: u64, user: u64) -> (r: String)
    ensures
        r@ == snooze_id_spec(secs, user),
{
    let mut out = to_chars("rem:snooze:");
    append(&mut out, decimal_exec(secs).as_slice());
    append_str(&mut out, ":");
    append(&mut out, decimal_exec(user).as_slice());
    from_chars(out.as_slice())
}

/// The delay and the owner (as text) of a pressed snooze button.
pub open spec fn decode_snooze_spec(id: Seq<char>) -> Option<(u64, Seq<char>)> {
    match crate::text::strip_prefix(id, "rem:snooze:"@) {
        None => None,
        Some(rest) => match split_once(rest, ":"@) {
            None => None,
            Some((secs, owner)) => match parse_u64_spec(secs) {
                Some(s) => Some((s, owner)),
                None => None,
            },
        },
    }
}

pub fn decode_snooze(custom_id: &str) -> (r: Option<(u64, String)>)
    ensures
        match r {
            Some((s, o)) => decode_snooze_spec(custom_id@) == Some((s, o@)),
            None => decode_snooze_spec(custom_id@) is None,
        },
{
    let id = to_chars(custom_id);
    let prefix = to_chars("rem:snooze:");
    let rest = match crate::text::strip_prefix_exec(id.as_slice(), prefix.as_slice()) {
        Some(r) => r,
        None => return None,
    };
    let colon = to_chars(":");
    let (secs, owner) = match split_once_exec(rest, colon.as_slice()) {
        Some(x) => x,
        None => return None,
    };
    match parse_u64(secs) {
        Some(s) => Some((s, from_chars(owner))),
        None => None,
    }
}

/// A snooze button is read back as the delay and the owner it was made
/// for.
pub proof fn lemma_snooze_round_trip(secs: u64, user: u64)
    ensures
        decode_snooze_spec(snooze_id_spec(secs, user)) == Some((secs, decimal(user as nat))),
{
    reveal_strlit("rem:snooze:");
    reveal_strlit(":");
    assert(":"@ =~= seq![':']);
    crate::text::lemma_strip_prefix_concat("rem:snooze:"@, decimal(secs as nat) + ":"@ + decimal(user as nat));
    assert(snooze_id_spec(secs, user) =~= "rem:snooze:"@ + (decimal(secs as nat) + ":"@ + decimal(user as nat)));
    crate::num::lemma_decimal_digits(secs as nat);
    assert(crate::text::no_char(decimal(secs as nat), ':')) by {
        let d = decimal(secs as nat);
        assert forall|i: int| 0 <= i < d.len() implies d[i] != ':' by {
            assert(is_digit(d[i]));
        }
    }
    assert(decimal(secs as nat) + ":"@ + decimal(user as nat) =~= decimal(secs as nat) + seq![':'] + decimal(
        user as nat,
    ));
    crate::text::lemma_split_once_at(decimal(secs as nat), ':', decimal(user as nat));
    crate::num::lemma_parse_decimal(secs);
}

/// The text of a delivered reminder, read back from its message.
pub open spec fn snoozed_text_spec(content: Seq<char>) -> Option<Seq<char>> {
    match split_once(content, "Reminder: "@) {
        Some((_, t)) => Some(t),
        None => None,
    }
}

pub fn snoozed_text(content: &str) -> (r: Option<String>)
    ensures
        crate::git_diff::opt_view(r) == snoozed_text_spec(content@),
{
    let c = to_chars(content);
    let p = to_chars("Reminder: ");
    match split_once_exec(c.as_slice(), p.as_slice()) {
        Some((_, t)) => Some(from_chars(t)),
        None => None,
    }
}

/// Snoozing a delivered reminder keeps its text: the text read back from
/// the delivery message is the reminder's own, and none when it had none.
pub proof fn lemma_snooze_keeps_text(user: u64, text: Option<Seq<char>>)
    ensures
        snoozed_text_spec(reminder_message_spec(user, text)) == text,
{
    reveal_strlit("<@");
    reveal_strlit("> ");
    reveal_strlit("Reminder: ");
    reveal_strlit("> Reminder.");
    let d = decimal(user as nat);
    crate::num::lemma_decimal_digits(user as nat);
    let p = "Reminder: "@;
    let s = reminder_message_spec(user, text);
    crate::text::lemma_find(s, p);
    match text {
        Some(t) => {
            let pre = "<@"@ + d + "> "@;
            let n = pre.len() as int;
            assert(s =~= pre + p + t);
            assert(s.subrange(n, n + p.len()) =~= p);
            assert(crate::text::matches_at(s, p, n));
            assert forall|j: int| 0 <= j < n implies !#[trigger] crate::text::matches_at(s, p, j) by {
                if crate::text::matches_at(s, p, j) {
                    assert(s.subrange(j, j + p.len())[0] == p[0]);
                    assert(s[j] == 'R');
                    if 2 <= j < 2 + d.len() {
                        assert(s[j] == d[j - 2]);
                        assert(is_digit(d[j - 2]));
                    } else {
                        assert(s[j] == pre[j]);
                    }
                }
            }
            assert(s.skip(n + p.len()) =~= t);
        },
        None => {
            let pos_r = 2 + d.len() + 2;
            assert forall|j: int| !#[trigger] crate::text::matches_at(s, p, j) by {
                if crate::text::matches_at(s, p, j) {
                    assert(s.subrange(j, j + p.len())[0] == p[0]);
                    assert(s[j] == 'R');
                    if 2 <= j < 2 + d.len() {
                        assert(s[j] == d[j - 2]);
                        assert(is_digit(d[j - 2]));
                    } else if j != pos_r {
                        assert(s[j] == ("<@"@ + d + "> Reminder."@)[j]);
                    }
                }
            }
        },
    }
}

/// A delivered reminder's message once it has been snoozed.
pub open spec fn snoozed_message_spec(content: Seq<char>, remind_at: i64) -> Seq<char> {
    content + "\n-# Snoozed, next reminder <t:"@ + signed_decimal(remind_at as int) + ":R>"@
}

pub fn snoozed_message(content: &str, remind_at: i64) -> (r: String)
    ensures
        r@ == snoozed_message_spec(content@, remind_at),
{
    let mut out = to_chars(content);
    append_str(&mut out, "\n-# Snoozed, next reminder <t:");
    append(&mut out, signed_decimal_exec(remind_at).as_slice());
    append_str(&mut out, ":R>");
    from_chars(out.as_slice())
}

// -------------------------------------------------------- deleting embeds

/// The message id a user gave: a bare id, or the last part of a message
/// link.
pub open spec fn parse_message_id_spec(input: Seq<char>) -> Option<u64> {
    parse_u64_spec(trim(after_last(trim(input), "/"@)))
}

pub fn parse_message_id(input: &str) -> (r: Option<u64>)
    ensures
        r == parse_message_id_spec(input@),
{
    let c = to_chars(input);
    let slash = to_chars("/");
    let last = after_last_exec(trim_exec(c.as_slice()), slash.as_slice());
    parse_u64(trim_exec(last))
}

// --------------------------------------------------------------- presence

/// The kind of activity shown in the bot's presence.
#[derive(PartialEq, Eq, Structural, Clone, Copy, Debug)]
pub enum StatusKind {
    Playing,
    Watching,
    Listening,
    Competing,
    Custom,
}

/// The online status shown in the bot's presence.
#[derive(PartialEq, Eq, Structural, Clone, Copy, Debug)]
pub enum OnlineKind {
    Online,
    Idle,
    Dnd,
    Invisible,
}

pub open spec fn status_kind_spec(name: Seq<char>) -> StatusKind {
    let n = lower(name);
    if n == "playing"@ {
        StatusKind::Playing
    } else if n == "listening"@ {
        StatusKind::Listening
    } else if n == "competing"@ {
        StatusKind::Competing
    } else if n == "custom"@ {
        StatusKind::Custom
    } else {
        StatusKind::Watching
    }
}

pub open spec fn online_kind_spec(name: Seq<char>) -> OnlineKind {
    let n = lower(name);
    if n == "idle"@ {
        OnlineKind::Idle
    } else if n == "dnd"@ {
        OnlineKind::Dnd
    } else if n == "invisible"@ {
        OnlineKind::Invisible
    } else {
        OnlineKind::Online
    }
}

impl StatusKind {
    /// The activity kind a stored name stands for, ignoring case; unknown
    /// names mean watching.
    pub fn from_name(name: &str) -> (r: StatusKind)
        ensures
            r == status_kind_spec(name@),
    {
        let n = lower_exec(to_chars(name).as_slice());
        if crate::text::eq_str(n.as_slice(), "playing") {
            StatusKind::Playing
        } else if crate::text::eq_str(n.as_slice(), "listening") {
            StatusKind::Listening
        } else if crate::text::eq_str(n.as_slice(), "competing") {
            StatusKind::Competing
        } else if crate::text::eq_str(n.as_slice(), "custom") {
            StatusKind::Custom
        } else {
            StatusKind::Watching
        }
    }
}

impl OnlineKind {
    /// The online status a stored name stands for, ignoring case; unknown
    /// names mean online.
    pub fn from_name(name: &str) -> (r: OnlineKind)
        ensures
            r == online_kind_spec(name@),
    {
        let n = lower_exec(to_chars(name).as_slice());
        if crate::text::eq_str(n.as_slice(), "idle") {
            OnlineKind::Idle
        } else if crate::text::eq_str(n.as_slice(), "dnd") {
            OnlineKind::Dnd
        } else if crate::text::eq_str(n.as_slice(), "invisible") {
            OnlineKind::Invisible
        } else {
            OnlineKind::Online
        }
    }
}

// ---------------------------------------------------------------- welcome

/// A welcome message from its template: `{server_name}`, `{user}`,
/// `{mention}`, `{username}` and `{member_count}` filled in, in that order.
pub open spec fn welcome_message_spec(
    template: Seq<char>,
    server: Seq<char>,
    user: u64,
    username: Seq<char>,
    member_count: Seq<char>,
) -> Seq<char> {
    let mention = "<@"@ + decimal(user as nat) + ">"@;
    let a = replace(template, "{server_name}"@, server);
    let b = replace(a, "{user}"@, mention);
    let c = replace(b, "{mention}"@, mention);
    let d = replace(c, "{username}"@, username);
    replace(d, "{member_count}"@, member_count)
}

pub fn welcome_message(template: &str, server: &str, user: u64, username: &str, member_count: &str) -> (r: String)
    ensures
        r@ == welcome_message_spec(template@, server@, user, username@, member_count@),
{
    proof {
        reveal_strlit("{server_name}");
        reveal_strlit("{user}");
        reveal_strlit("{mention}");
        reveal_strlit("{username}");
        reveal_strlit("{member_count}");
    }
    let mut mention = to_chars("<@");
    append(&mut mention, decimal_exec(user).as_slice());
    append_str(&mut mention, ">");
    let m = from_chars(mention.as_slice());
    let t = to_chars(template);
    let a = replace_str(t.as_slice(), "{server_name}", server);
    let b = replace_str(a.as_slice(), "{user}", m.as_str());
    let c = replace_str(b.as_slice(), "{mention}", m.as_str());
    let d = replace_str(c.as_slice(), "{username}", username);
    let e = replace_str(d.as_slice(), "{member_count}", member_count);
    from_chars(e.as_slice())
}

/// Whether a welcome message pings the new member: only when its template
/// uses `{user}`.
pub fn welcome_mentions_user(template: &str) -> (r: bool)
    ensures
        r == contains(template@, "{user}"@),
{
    contains_str(to_chars(template).as_slice(), "{user}")
}

/// What to do when a member joins: the role to give and the channel to
/// greet in, each when its stored id is a number.
pub struct WelcomePlan {
    pub role: Option<u64>,
    pub channel: Option<u64>,
}

pub open spec fn stored_id(s: Option<Seq<char>>) -> Option<u64> {
    match s {
        Some(t) => parse_u64_spec(t),
        None => None,
    }
}

pub open spec fn opt_str_view(s: Option<&str>) -> Option<Seq<char>> {
    match s {
        Some(t) => Some(t@),
        None => None,
    }
}

/// The plan for a join: nothing when welcomes are off.
pub fn welcome_plan(enabled: bool, role_id: Option<&str>, channel_id: Option<&str>) -> (r: Option<WelcomePlan>)
    ensures
        !enabled ==> r is None,
        enabled ==> (r matches Some(p) && p.role == stored_id(opt_str_view(role_id)) && p.channel == stored_id(
            opt_str_view(channel_id),
        )),
{
    if !enabled {
        return None;
    }
    let role = match role_id {
        Some(t) => parse_u64(to_chars(t).as_slice()),
        None => None,
    };
    let channel = match channel_id {
        Some(t) => parse_u64(to_chars(t).as_slice()),
        None => None,
    };
    Some(WelcomePlan { role, channel })
}

/// The reply of the welcome command: the settings, with the placeholders
/// listed when nothing was changed.
pub open spec fn welcome_settings_spec(
    changed: bool,
    enabled: bool,
    channel_id: Option<Seq<char>>,
    role_id: Option<Seq<char>>,
    message: Seq<char>,
) -> Seq<char> {
    let status = if enabled { "Enabled"@ } else { "Disabled"@ };
    let channel = match channel_id {
        Some(id) => "<#"@ + id + ">"@,
        None => "Not set"@,
    };
    let role = match role_id {
        Some(id) => "<@&"@ + id + ">"@,
        None => "None"@,
    };
    let head = if changed { "**Welcome Settings Updated**"@ } else { "**Welcome Settings**"@ };
    let body = head + "\nStatus: "@ + status + "\nChannel: "@ + channel + "\nRole: "@ + role + "\nMessage: `"@
        + message + "`"@;
    if changed {
        body
    } else {
        body + "\n\nPlaceholders: `{server_name}`, `{user}`, `{username}`, `{member_count}`"@
    }
}

#[verifier::spinoff_prover]
#[verifier::rlimit(40)]
pub fn welcome_settings_reply(
    changed: bool,
    enabled: bool,
    channel_id: Option<&str>,
    role_id: Option<&str>,
    message: &str,
) -> (r: String)
    ensures
        r@ == welcome_settings_spec(changed, enabled, opt_str_view(channel_id), opt_str_view(role_id), message@),
{
    let mut out = if changed { to_chars("**Welcome Settings Updated**") } else { to_chars("**Welcome Settings**") };
    append_str(&mut out, "\nStatus: ");
    if enabled {
        append_str(&mut out, "Enabled");
    } else {
        append_str(&mut out, "Disabled");
    }
    append_str(&mut out, "\nChannel: ");
    match channel_id {
        Some(id) => {
            append_str(&mut out, "<#");
            append_str(&mut out, id);
            append_str(&mut out, ">");
        },
        None => append_str(&mut out, "Not set"),
    }
    append_str(&mut out, "\nRole: ");
    match role_id {
        Some(id) => {
            append_str(&mut out, "<@&");
            append_str(&mut out, id);
            append_str(&mut out, ">");
        },
        None => append_str(&mut out, "None"),
    }
    append_str(&mut out, "\nMessage: `");
    append_str(&mut out, message);
    append_str(&mut out, "`");
    if !changed {
        append_str(&mut out, "\n\nPlaceholders: `{server_name}`, `{user}`, `{username}`, `{member_count}`");
    }
    from_chars(out.as_slice())
}

// ------------------------------------------------------------------ stats

/// An uptime as days, hours, minutes and seconds, leaving out the leading
/// units that are zero.
pub open spec fn uptime_spec(secs: u64) -> Seq<char> {
    let days = secs / 86400;
    let hours = (secs % 86400) / 3600;
    let minutes = (secs % 3600) / 60;
    let seconds = secs % 60;
    if days > 0 {
        decimal(days as nat) + "d "@ + decimal(hours as nat) + "h "@ + decimal(minutes as nat) + "m "@ + decimal(
            seconds as nat,
        ) + "s"@
    } else if hours > 0 {
        decimal(hours as nat) + "h "@ + decimal(minutes as nat) + "m "@ + decimal(seconds as nat) + "s"@
    } else if minutes > 0 {
        decimal(minutes as nat) + "m "@ + decimal(seconds as nat) + "s"@
    } else {
        decimal(seconds as nat) + "s"@
    }
}

pub fn uptime_text(secs: u64) -> (r: String)
    ensures
        r@ == uptime_spec(secs),
{
    let days = secs / 86400;
    let hours = (secs % 86400) / 3600;
    let minutes = (secs % 3600) / 60;
    let seconds = secs % 60;
    let mut out: Vec<char> = Vec::new();
    if days > 0 {
        append(&mut out, decimal_exec(days).as_slice());
        append_str(&mut out, "d ");
    }
    if days > 0 || hours > 0 {
        append(&mut out, decimal_exec(hours).as_slice());
        append_str(&mut out, "h ");
    }
    if days > 0 || hours > 0 || minutes > 0 {
        append(&mut out, decimal_exec(minutes).as_slice());
        append_str(&mut out, "m ");
    }
    append(&mut out, decimal_exec(seconds).as_slice());
    append_str(&mut out, "s");
    from_chars(out.as_slice())
}

// --------------------------------------------------------------- settings

pub open spec fn toggle_services_spec() -> Seq<Seq<char>> {
    seq!["git_diffs"@, "git_compares"@, "git_links"@, "twitter"@, "tiktok"@, "instagram"@, "reddit"@]
}

/// The services that the settings command turns on and off.
pub fn toggle_services() -> (r: Vec<&'static str>)
    ensures
        str_views(r@) == toggle_services_spec(),
{
    let r = vec!["git_diffs", "git_compares", "git_links", "twitter", "tiktok", "instagram", "reddit"];
    assert(str_views(r@) =~= toggle_services_spec());
    r
}

/// The service a toggle names, lower-cased, when it is one of the
/// services.
pub fn toggle_target(service: &str) -> (r: Option<String>)
    ensures
        match r {
            Some(s) => s@ == lower(service@) && toggle_services_spec().contains(s@),
            None => !toggle_services_spec().contains(lower(service@)),
        },
{
    let l = lower_exec(to_chars(service).as_slice());
    let services = toggle_services();
    let mut i: usize = 0;
    while i < services.len()
        invariant
            i <= services@.len(),
            str_views(services@) == toggle_services_spec(),
            l@ == lower(service@),
            forall|j: int| 0 <= j < i ==> toggle_services_spec()[j] != l@,
        decreases services@.len() - i,
    {
        if crate::text::eq_str(l.as_slice(), services[i]) {
            assert(toggle_services_spec()[i as int] == l@);
            return Some(from_chars(l.as_slice()));
        }
        i += 1;
    }
    None
}

/// The refusal of an unknown service, listing the valid ones.
pub open spec fn unknown_service_spec(service: Seq<char>) -> Seq<char> {
    "Unknown service `"@ + service
        + "`. Valid options: `git_diffs`, `git_compares`, `git_links`, `twitter`, `tiktok`, `instagram`, `reddit`."@
}

pub fn unknown_service_message(service: &str) -> (r: String)
    ensures
        r@ == unknown_service_spec(service@),
{
    let mut out = to_chars("Unknown service `");
    append_str(&mut out, service);
    append_str(
        &mut out,
        "`. Valid options: `git_diffs`, `git_compares`, `git_links`, `twitter`, `tiktok`, `instagram`, `reddit`.",
    );
    from_chars(out.as_slice())
}

/// Whether a normalized domain can be blocked: it is not empty and has a
/// dot.
pub fn valid_block_domain(normalized: &str) -> (r: bool)
    ensures
        r == (normalized@.len() > 0 && contains(normalized@, "."@)),
{
    let c = to_chars(normalized);
    c.len() > 0 && contains_str(c.as_slice(), ".")
}

/// Domains as a list, one `- <domain>` per line.
pub open spec fn bullets_spec(domains: Seq<Seq<char>>) -> Seq<char> {
    crate::text::join(domains.map_values(|d: Seq<char>| "- "@ + d), "\n"@)
}

pub(crate) fn bullets(domains: &[String]) -> (r: Vec<char>)
    ensures
        r@ == bullets_spec(views(domains@)),
{
    let mut items: Vec<Vec<char>> = Vec::new();
    let mut i: usize = 0;
    while i < domains.len()
        invariant
            i <= domains@.len(),
            crate::text::vv(items@) == views(domains@).take(i as int).map_values(|d: Seq<char>| "- "@ + d),
        decreases domains@.len() - i,
    {
        let mut item = to_chars("- ");
        append_str(&mut item, domains[i].as_str());
        let ghost before = items@;
        items.push(item);
        proof {
            crate::text::lemma_vv_push(before, item);
        }
        assert(views(domains@).take(i + 1) =~= views(domains@).take(i as int).push(domains@[i as int]@));
        assert(crate::text::vv(items@) =~= views(domains@).take(i + 1).map_values(|d: Seq<char>| "- "@ + d));
        i += 1;
    }
    assert(views(domains@).take(domains@.len() as int) =~= views(domains@));
    let nl = to_chars("\n");
    crate::text::join_exec(items.as_slice(), nl.as_slice())
}

/// The list of a server's blocked domains, one per line.
pub open spec fn blocked_list_spec(domains: Seq<Seq<char>>) -> Seq<char> {
    if domains.len() == 0 {
        "No domains are blocked in this server."@
    } else {
        "**Blocked domains in this server:**\n"@ + bullets_spec(domains)
    }
}

pub fn blocked_list_text(domains: &[String]) -> (r: String)
    ensures
        r@ == blocked_list_spec(views(domains@)),
{
    if domains.len() == 0 {
        return "No domains are blocked in this server.".to_string();
    }
    let mut out = to_chars("**Blocked domains in this server:**\n");
    append(&mut out, bullets(domains).as_slice());
    from_chars(out.as_slice())
}

/// The answer to a service toggle.
pub fn toggle_done_message(service: &str, enabled: bool) -> (r: String)
    ensures
        r@ == "**"@ + service@ + "** has been "@ + (if enabled { "enabled"@ } else { "disabled"@ }) + "."@,
{
    let mut out = to_chars("**");
    append_str(&mut out, service);
    append_str(&mut out, "** has been ");
    append_str(&mut out, if enabled { "enabled" } else { "disabled" });
    append_str(&mut out, ".");
    from_chars(out.as_slice())
}

/// The refusal of a domain that is already blocked in the server.
pub fn already_blocked_message(domain: &str) -> (r: String)
    ensures
        r@ == "**"@ + domain@ + "** is already blocked in this server."@,
{
    let mut out = to_chars("**");
    append_str(&mut out, domain);
    append_str(&mut out, "** is already blocked in this server.");
    from_chars(out.as_slice())
}

/// The answer when a domain is blocked in the server.
pub fn domain_blocked_message(domain: &str) -> (r: String)
    ensures
        r@ == "**"@ + domain@ + "** has been blocked in this server. Subdomains are also blocked."@,
{
    let mut out = to_chars("**");
    append_str(&mut out, domain);
    append_str(&mut out, "** has been blocked in this server. Subdomains are also blocked.");
    from_chars(out.as_slice())
}

/// The answer when a domain is unblocked in the server, or was not blocked.
pub fn domain_unblocked_message(domain: &str, removed: bool) -> (r: String)
    ensures
        removed ==> r@ == "**"@ + domain@ + "** has been unblocked in this server."@,
        !removed ==> r@ == "**"@ + domain@ + "** is not on this server's blocklist."@,
{
    let mut out = to_chars("**");
    append_str(&mut out, domain);
    if removed {
        append_str(&mut out, "** has been unblocked in this server.");
    } else {
        append_str(&mut out, "** is not on this server's blocklist.");
    }
    from_chars(out.as_slice())
}

/// A server's settings for the services that can be turned off.
pub struct ServerSettings {
    pub guild_id: String,
    pub git_diffs_enabled: bool,
    pub git_compares_enabled: bool,
    pub git_links_enabled: bool,
    pub twitter_enabled: bool,
    pub tiktok_enabled: bool,
    pub instagram_enabled: bool,
}

impl ServerSettings {
    /// The settings of a server that has stored none: everything on.
    pub fn defaults(guild_id: &str) -> (r: ServerSettings)
        ensures
            r.guild_id@ == guild_id@,
            r.git_diffs_enabled && r.git_compares_enabled && r.git_links_enabled && r.twitter_enabled,
            r.tiktok_enabled && r.instagram_enabled,
    {
        ServerSettings {
            guild_id: from_chars(to_chars(guild_id).as_slice()),
            git_diffs_enabled: true,
            git_compares_enabled: true,
            git_links_enabled: true,
            twitter_enabled: true,
            tiktok_enabled: true,
            instagram_enabled: true,
        }
    }
}

/// The stored column of a setting, for the settings that have one.
pub open spec fn setting_column_spec(setting: Seq<char>) -> Option<Seq<char>> {
    if setting == "git_diffs"@ {
        Some("git_diffs_enabled"@)
    } else if setting == "git_compares"@ {
        Some("git_compares_enabled"@)
    } else if setting == "git_links"@ {
        Some("git_links_enabled"@)
    } else if setting == "twitter"@ {
        Some("twitter_enabled"@)
    } else if setting == "tiktok"@ {
        Some("tiktok_enabled"@)
    } else if setting == "instagram"@ {
        Some("instagram_enabled"@)
    } else {
        None
    }
}

pub fn setting_column(setting: &str) -> (r: Option<&'static str>)
    ensures
        match r {
            Some(c) => setting_column_spec(setting@) == Some(c@),
            None => setting_column_spec(setting@) is None,
        },
{
    let s = to_chars(setting);
    if crate::text::eq_str(s.as_slice(), "git_diffs") {
        Some("git_diffs_enabled")
    } else if crate::text::eq_str(s.as_slice(), "git_compares") {
        Some("git_compares_enabled")
    } else if crate::text::eq_str(s.as_slice(), "git_links") {
        Some("git_links_enabled")
    } else if crate::text::eq_str(s.as_slice(), "twitter") {
        Some("twitter_enabled")
    } else if crate::text::eq_str(s.as_slice(), "tiktok") {
        Some("tiktok_enabled")
    } else if crate::text::eq_str(s.as_slice(), "instagram") {
        Some("instagram_enabled")
    } else {
        None
    }
}


// ------------------------------------------------------------- permissions

pub open spec fn yes_no(b: bool) -> Seq<char> {
    if b {
        "Yes"@
    } else {
        "No"@
    }
}

fn yes_no_exec(b: bool) -> (r: &'static str)
    ensures
        r@ == yes_no(b),
{
    if b {
        "Yes"
    } else {
        "No"
    }
}

/// The `checkperms` reply: whether the bot may send messages, manage
/// messages and read the history in the channel, the channel, and the raw
/// permission bits.
pub fn checkperms_text(send: bool, manage: bool, read_history: bool, channel_id: u64, bits: u64) -> (r: String)
    ensures
        r@ == "**Bot permissions in this channel:**\nSend Messages: **"@ + yes_no(send) + "**\nManage Messages: **"@
            + yes_no(manage) + "**\nRead Message History: **"@ + yes_no(read_history) + "**\n\nChannel ID: "@
            + decimal(channel_id as nat) + "\nRaw permissions: "@ + decimal(bits as nat),
{
    let mut out = to_chars("**Bot permissions in this channel:**\nSend Messages: **");
    append_str(&mut out, yes_no_exec(send));
    append_str(&mut out, "**\nManage Messages: **");
    append_str(&mut out, yes_no_exec(manage));
    append_str(&mut out, "**\nRead Message History: **");
    append_str(&mut out, yes_no_exec(read_history));
    append_str(&mut out, "**\n\nChannel ID: ");
    append(&mut out, decimal_exec(channel_id).as_slice());
    append_str(&mut out, "\nRaw permissions: ");
    append(&mut out, decimal_exec(bits).as_slice());
    from_chars(out.as_slice())
}

// ------------------------------------------------------- more settings

/// The services whose names begin with what the user typed so far (letter
/// case ignored), in order.
pub fn autocomplete_service(partial: &str) -> (r: Vec<&'static str>)
    ensures
        str_views(r@) == toggle_services_spec().filter(|n: Seq<char>| starts_with(n, lower(partial@))),
{
    let p = lower_exec(to_chars(partial).as_slice());
    let services = toggle_services();
    let mut out: Vec<&'static str> = Vec::new();
    let mut i: usize = 0;
    proof {
        reveal(Seq::filter);
    }
    assert(toggle_services_spec().take(0) =~= Seq::<Seq<char>>::empty());
    while i < services.len()
        invariant
            i <= services@.len(),
            str_views(services@) == toggle_services_spec(),
            p@ == lower(partial@),
            str_views(out@) == toggle_services_spec().take(i as int).filter(
                |n: Seq<char>| starts_with(n, lower(partial@)),
            ),
        decreases services@.len() - i,
    {
        let ghost t = toggle_services_spec().take(i as int + 1);
        assert(t.drop_last() =~= toggle_services_spec().take(i as int));
        assert(t.last() == services@[i as int]@);
        let name = services[i];
        if starts_with_exec(to_chars(name).as_slice(), p.as_slice()) {
            let ghost before = out@;
            out.push(name);
            assert(str_views(out@) =~= str_views(before).push(name@));
        }
        proof {
            reveal(Seq::filter);
        }
        i += 1;
    }
    assert(toggle_services_spec().take(services@.len() as int) =~= toggle_services_spec());
    out
}

// ------------------------------------------------------------------ stats

/// The number of members and channels over the servers the bot is in.
pub open spec fn member_total(gs: Seq<(u32, u64)>) -> int
    decreases gs.len(),
{
    if gs.len() == 0 {
        0
    } else {
        member_total(gs.drop_last()) + gs.last().0
    }
}

pub open spec fn channel_total(gs: Seq<(u32, u64)>) -> int
    decreases gs.len(),
{
    if gs.len() == 0 {
        0
    } else {
        channel_total(gs.drop_last()) + gs.last().1
    }
}

proof fn lemma_totals_grow(gs: Seq<(u32, u64)>, k: int)
    requires
        0 <= k <= gs.len(),
    ensures
        member_total(gs.take(k)) <= member_total(gs),
        channel_total(gs.take(k)) <= channel_total(gs),
        0 <= member_total(gs.take(k)),
        0 <= channel_total(gs.take(k)),
    decreases gs.len() - k,
{
    if k < gs.len() {
        lemma_totals_grow(gs, k + 1);
        assert(gs.take(k + 1).drop_last() =~= gs.take(k));
    } else {
        assert(gs.take(k) =~= gs);
    }
    lemma_totals_nonneg(gs.take(k));
}

proof fn lemma_totals_nonneg(gs: Seq<(u32, u64)>)
    ensures
        0 <= member_total(gs),
        0 <= channel_total(gs),
    decreases gs.len(),
{
    if gs.len() > 0 {
        lemma_totals_nonneg(gs.drop_last());
    }
}

/// The members and channels of all servers, each server given by its
/// member count and its number of channels.
pub fn stats_totals(guilds: &[(u32, u64)]) -> (r: (u64, u64))
    requires
        member_total(guilds@) <= u64::MAX,
        channel_total(guilds@) <= u64::MAX,
    ensures
        r.0 == member_total(guilds@),
        r.1 == channel_total(guilds@),
{
    let mut users: u64 = 0;
    let mut channels: u64 = 0;
    let mut i: usize = 0;
    assert(guilds@.take(0) =~= Seq::<(u32, u64)>::empty());
    while i < guilds.len()
        invariant
            i <= guilds@.len(),
            member_total(guilds@) <= u64::MAX,
            channel_total(guilds@) <= u64::MAX,
            users == member_total(guilds@.take(i as int)),
            channels == channel_total(guilds@.take(i as int)),
        decreases guilds@.len() - i,
    {
        assert(guilds@.take(i as int + 1).drop_last() =~= guilds@.take(i as int));
        proof {
            lemma_totals_grow(guilds@, i as int + 1);
        }
        users = users + guilds[i].0 as u64;
        channels = channels + guilds[i].1;
        i += 1;
    }
    assert(guilds@.take(guilds@.len() as int) =~= guilds@);
    (users, channels)
}

/// The `stats` reply.
pub fn stats_text(
    servers: u64,
    users: u64,
    channels: u64,
    uptime_secs: u64,
    configured: i64,
    blacklisted_users: i64,
    blacklisted_servers: i64,
    version: &str,
) -> (r: String)
    ensures
        r@ == "**Genesis Stats**\nServers: **"@ + decimal(servers as nat) + "** | Users: **"@ + decimal(users as nat)
            + "** | Channels: **"@ + decimal(channels as nat) + "**\nUptime: **"@ + uptime_spec(uptime_secs)
            + "**\nConfigured Servers: **"@ + signed_decimal(configured as int) + "**\nBlacklisted Users: **"@
            + signed_decimal(blacklisted_users as int) + "** | Blacklisted Servers: **"@ + signed_decimal(
            blacklisted_servers as int,
        ) + "**\nVersion: **"@ + version@ + "**"@,
{
    let mut out = to_chars("**Genesis Stats**\nServers: **");
    append(&mut out, decimal_exec(servers).as_slice());
    append_str(&mut out, "** | Users: **");
    append(&mut out, decimal_exec(users).as_slice());
    append_str(&mut out, "** | Channels: **");
    append(&mut out, decimal_exec(channels).as_slice());
    append_str(&mut out, "**\nUptime: **");
    append_str(&mut out, uptime_text(uptime_secs).as_str());
    append_str(&mut out, "**\nConfigured Servers: **");
    append(&mut out, signed_decimal_exec(configured).as_slice());
    append_str(&mut out, "**\nBlacklisted Users: **");
    append(&mut out, signed_decimal_exec(blacklisted_users).as_slice());
    append_str(&mut out, "** | Blacklisted Servers: **");
    append(&mut out, signed_decimal_exec(blacklisted_servers).as_slice());
    append_str(&mut out, "**\nVersion: **");
    append_str(&mut out, version);
    append_str(&mut out, "**");
    from_chars(out.as_slice())
}

/// The `ping` reply once the round trip is timed.
pub fn pong_text(millis: u64) -> (r: String)
    ensures
        r@ == "Pong! (Response time: "@ + decimal(millis as nat) + "ms)"@,
{
    let mut out = to_chars("Pong! (Response time: ");
    append(&mut out, decimal_exec(millis).as_slice());
    append_str(&mut out, "ms)");
    from_chars(out.as_slice())
}

} // verus!
