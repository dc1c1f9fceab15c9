//! The steps of the reminder commands and of the snooze buttons: what is
//! refused, what is stored, and what the user is told.
use vstd::prelude::*;
use crate::text::{append, append_str, from_chars, join, join_exec, to_chars, trim, trim_exec};
use crate::num::{decimal, decimal_exec};
use crate::git_diff::opt_view;
use crate::commands::{
    decode_snooze, decode_snooze_spec, parse_duration_secs, parse_duration_spec, reminder_delay_allowed,
    reminder_line, reminder_line_spec, reminder_text, reminder_text_spec, signed_decimal, signed_decimal_exec,
    snooze_button_id, snooze_id_spec, snoozed_text, snoozed_text_spec, MAX_REMINDERS_PER_USER,
    REMINDER_MAX_SECONDS, REMINDER_MIN_SECONDS,
};

verus! {

/// The rest of a command's arguments, taken as one text.
pub struct RestText(pub String);

impl RestText {
    /// A slash-command value, trimmed.
    pub fn extract(value: &str) -> (r: RestText)
        ensures
            r.0@ == trim(value@),
    {
        let c = to_chars(value);
        RestText(from_chars(trim_exec(c.as_slice())))
    }

    /// The whole of a prefix command's remaining arguments, trimmed; none
    /// when nothing is left.
    pub fn pop_from(args: &str) -> (r: Option<RestText>)
        ensures
            match r {
                Some(t) => trim(args@).len() > 0 && t.0@ == trim(args@),
                None => trim(args@).len() == 0,
            },
    {
        let c = to_chars(args);
        let t = trim_exec(c.as_slice());
        if t.len() == 0 {
            None
        } else {
            Some(RestText(from_chars(t)))
        }
    }
}

/// A reminder that `reminder add` may store.
pub struct NewReminder {
    pub seconds: u64,
    pub text: Option<String>,
}

pub open spec fn text_view(t: Option<&str>) -> Option<Seq<char>> {
    match t {
        Some(s) => Some(s@),
        None => None,
    }
}

/// The checks of `reminder add` before the user's reminders are counted:
/// the rate limit, then the duration's form, then its range.
pub fn check_new_reminder(rate_ok: bool, duration: &str, text: Option<&str>) -> (r: Result<NewReminder, String>)
    ensures
        !rate_ok ==> (r matches Err(e) && e@ == "You're being rate limited. Try again in a few seconds."@),
        rate_ok ==> match parse_duration_spec(duration@) {
            None => (r matches Err(e) && e@
                == "Invalid duration. Use a number of minutes or units like `10m`, `1h30m`, `2d`."@),
            Some(s) => if REMINDER_MIN_SECONDS <= s <= REMINDER_MAX_SECONDS {
                (r matches Ok(n) && n.seconds == s && opt_view(n.text) == reminder_text_spec(text_view(text)))
            } else {
                (r matches Err(e) && e@ == "Duration must be between 10 seconds and 1 year."@)
            },
        },
{
    if !rate_ok {
        return Err("You're being rate limited. Try again in a few seconds.".to_string());
    }
    let seconds = match parse_duration_secs(duration) {
        Some(s) => s,
        None => {
            return Err(
                "Invalid duration. Use a number of minutes or units like `10m`, `1h30m`, `2d`.".to_string(),
            )
        },
    };
    if !reminder_delay_allowed(seconds) {
        return Err("Duration must be between 10 seconds and 1 year.".to_string());
    }
    Ok(NewReminder { seconds, text: reminder_text(text) })
}

/// The refusal when a user already has the most reminders allowed.
pub open spec fn too_many_text() -> Seq<char> {
    "You already have "@ + decimal(MAX_REMINDERS_PER_USER as nat)
        + " reminders. Remove one first with `reminder remove <id>`."@
}

pub fn too_many_reminders(count: i64) -> (r: Option<String>)
    ensures
        match r {
            Some(m) => count >= MAX_REMINDERS_PER_USER && m@ == too_many_text(),
            None => count < MAX_REMINDERS_PER_USER,
        },
{
    if count >= MAX_REMINDERS_PER_USER {
        let mut out = to_chars("You already have ");
        append(&mut out, decimal_exec(MAX_REMINDERS_PER_USER as u64).as_slice());
        append_str(&mut out, " reminders. Remove one first with `reminder remove <id>`.");
        Some(from_chars(out.as_slice()))
    } else {
        None
    }
}

/// What `reminder add` does at `now` (seconds) for a user who has `count`
/// reminders: the refusal it answers with, or the reminder it stores, by
/// its due time and text. The checks come in this order: the rate limit,
/// the duration's form, its range, then the number of reminders.
pub open spec fn reminder_add_spec(
    rate_ok: bool,
    duration: Seq<char>,
    text: Option<Seq<char>>,
    count: i64,
    now: i64,
) -> Result<(int, Option<Seq<char>>), Seq<char>> {
    if !rate_ok {
        Err("You're being rate limited. Try again in a few seconds."@)
    } else {
        match parse_duration_spec(duration) {
            None => Err("Invalid duration. Use a number of minutes or units like `10m`, `1h30m`, `2d`."@),
            Some(s) => if !(REMINDER_MIN_SECONDS <= s <= REMINDER_MAX_SECONDS) {
                Err("Duration must be between 10 seconds and 1 year."@)
            } else if count >= MAX_REMINDERS_PER_USER {
                Err(too_many_text())
            } else {
                Ok((now + s, reminder_text_spec(text)))
            },
        }
    }
}

/// The whole decision of `reminder add` (see `reminder_add_spec`): a
/// reminder is stored exactly when every check passes.
pub fn reminder_add(rate_ok: bool, duration: &str, text: Option<&str>, count: i64, now: i64) -> (r: Result<
    (i64, Option<String>),
    String,
>)
    requires
        now + REMINDER_MAX_SECONDS <= i64::MAX,
    ensures
        r is Ok <==> rate_ok && (parse_duration_spec(duration@) matches Some(s) && REMINDER_MIN_SECONDS <= s
            <= REMINDER_MAX_SECONDS) && count < MAX_REMINDERS_PER_USER,
        match r {
            Ok((at, t)) => reminder_add_spec(rate_ok, duration@, text_view(text), count, now) == Ok::<
                (int, Option<Seq<char>>),
                Seq<char>,
            >((at as int, opt_view(t))),
            Err(e) => reminder_add_spec(rate_ok, duration@, text_view(text), count, now) == Err::<
                (int, Option<Seq<char>>),
                Seq<char>,
            >(e@),
        },
{
    let new = match check_new_reminder(rate_ok, duration, text) {
        Ok(n) => n,
        Err(e) => return Err(e),
    };
    if let Some(refusal) = too_many_reminders(count) {
        return Err(refusal);
    }
    Ok((remind_at(now, new.seconds), new.text))
}

/// When a reminder set at `now` (seconds) for `seconds` later fires.
pub fn remind_at(now: i64, seconds: u64) -> (r: i64)
    requires
        seconds <= i64::MAX,
        now + seconds <= i64::MAX,
    ensures
        r == now + seconds,
{
    now + seconds as i64
}

/// The confirmation of a new reminder.
pub fn reminder_set_message(id: i32, at: i64) -> (r: String)
    ensures
        r@ == "Reminder `#"@ + signed_decimal(id as int) + "` set for <t:"@ + signed_decimal(at as int) + ":R>."@,
{
    let mut out = to_chars("Reminder `#");
    append(&mut out, signed_decimal_exec(id as i64).as_slice());
    append_str(&mut out, "` set for <t:");
    append(&mut out, signed_decimal_exec(at).as_slice());
    append_str(&mut out, ":R>.");
    from_chars(out.as_slice())
}

/// The answer to `reminder remove`: whether a reminder of the user's own
/// was deleted.
pub fn reminder_removed_message(id: i32, deleted: bool) -> (r: Result<String, String>)
    ensures
        deleted ==> (r matches Ok(m) && m@ == "Reminder `#"@ + signed_decimal(id as int) + "` removed."@),
        !deleted ==> (r matches Err(m) && m@ == "No reminder `#"@ + signed_decimal(id as int)
            + "` found that belongs to you."@),
{
    if deleted {
        let mut out = to_chars("Reminder `#");
        append(&mut out, signed_decimal_exec(id as i64).as_slice());
        append_str(&mut out, "` removed.");
        Ok(from_chars(out.as_slice()))
    } else {
        let mut out = to_chars("No reminder `#");
        append(&mut out, signed_decimal_exec(id as i64).as_slice());
        append_str(&mut out, "` found that belongs to you.");
        Err(from_chars(out.as_slice()))
    }
}

/// A stored reminder as `reminder list` shows it.
pub struct ReminderRow {
    pub id: i32,
    pub remind_at: i64,
    pub text: Option<String>,
}

pub open spec fn row_line(row: ReminderRow) -> Seq<char> {
    reminder_line_spec(row.id, row.remind_at, opt_view(row.text))
}

/// The reply to `reminder list`: a refusal when there are none, else a
/// heading and one line per reminder.
pub fn reminder_list_text(rows: &[ReminderRow]) -> (r: Result<String, String>)
    ensures
        rows@.len() == 0 ==> (r matches Err(m) && m@ == "You have no reminders."@),
        rows@.len() > 0 ==> (r matches Ok(m) && m@ == join(
            seq!["**Your reminders:**"@] + rows@.map_values(|row: ReminderRow| row_line(row)),
            "\n"@,
        )),
{
    if rows.len() == 0 {
        return Err("You have no reminders.".to_string());
    }
    let mut lines: Vec<Vec<char>> = Vec::new();
    lines.push(to_chars("**Your reminders:**"));
    let mut i: usize = 0;
    while i < rows.len()
        invariant
            0 <= i <= rows@.len(),
            lines@.len() == i + 1,
            lines@[0]@ == "**Your reminders:**"@,
            forall|j: int| 0 <= j < i ==> #[trigger] lines@[j + 1]@ == row_line(rows@[j]),
        decreases rows@.len() - i,
    {
        let row = &rows[i];
        let t: Option<&str> = match &row.text {
            Some(s) => Some(s.as_str()),
            None => None,
        };
        let line = reminder_line(row.id, row.remind_at, t);
        assert(text_view(t) == opt_view(row.text));
        lines.push(to_chars(line.as_str()));
        assert(lines@[i + 1]@ == row_line(rows@[i as int]));
        i += 1;
    }
    let nl = to_chars("\n");
    let out = join_exec(lines.as_slice(), nl.as_slice());
    let ghost target = seq!["**Your reminders:**"@] + rows@.map_values(|row: ReminderRow| row_line(row));
    assert forall|k: int| 0 <= k < lines@.len() implies #[trigger] crate::text::vv(lines@)[k] == target[k] by {
        if k > 0 {
            let j = k - 1;
            assert(lines@[j + 1]@ == row_line(rows@[j]));
        }
    }
    assert(crate::text::vv(lines@) =~= target);
    Ok(from_chars(out.as_slice()))
}

// ---------------------------------------------------------------- snooze

pub open spec fn snooze_choices_spec() -> Seq<(u64, Seq<char>)> {
    seq![(600u64, "Snooze 10m"@), (3600u64, "Snooze 1h"@), (86400u64, "Snooze 1d"@)]
}

/// The snooze buttons under a delivered reminder: each button's id and
/// label.
pub fn snooze_buttons(user: u64) -> (r: Vec<(String, &'static str)>)
    ensures
        r@.len() == snooze_choices_spec().len(),
        forall|i: int|
            0 <= i < r@.len() ==> #[trigger] r@[i].0@ == snooze_id_spec(snooze_choices_spec()[i].0, user)
                && r@[i].1@ == snooze_choices_spec()[i].1,
{
    let mut r: Vec<(String, &'static str)> = Vec::new();
    r.push((snooze_button_id(600, user), "Snooze 10m"));
    r.push((snooze_button_id(3600, user), "Snooze 1h"));
    r.push((snooze_button_id(86400, user), "Snooze 1d"));
    r
}

/// What pressing a snooze button leads to.
pub enum SnoozeAction {
    /// Not a snooze button.
    Ignore,
    /// Pressed by someone other than the reminder's owner.
    NotOwner,
    /// Snooze for `secs` seconds the reminder of `owner`, with its text.
    Snooze { secs: u64, owner: String, text: Option<String> },
}

/// Reads a pressed button: its delay and owner, who pressed it, and the
/// reminder's text from the message it sits under.
pub fn snooze_action(custom_id: &str, presser: u64, content: &str) -> (r: SnoozeAction)
    ensures
        match decode_snooze_spec(custom_id@) {
            None => r is Ignore,
            Some((secs, owner)) => if decimal(presser as nat) != owner {
                r is NotOwner
            } else {
                (r matches SnoozeAction::Snooze { secs: s, owner: o, text: t } && s == secs && o@ == owner && opt_view(t)
                    == snoozed_text_spec(content@))
            },
        },
{
    let (secs, owner) = match decode_snooze(custom_id) {
        Some(x) => x,
        None => return SnoozeAction::Ignore,
    };
    let presser_text = decimal_exec(presser);
    let owner_chars = to_chars(owner.as_str());
    if !crate::text::eq_exec(presser_text.as_slice(), owner_chars.as_slice()) {
        return SnoozeAction::NotOwner;
    }
    SnoozeAction::Snooze { secs, owner, text: snoozed_text(content) }
}

} // verus!
