//! The `time` command: a time of day read in one zone and shown in others.
//!
//! Instants are whole seconds since the Unix epoch; what a zone's clock
//! reads at an instant, and which instant a zone's clock reading names, is
//! computed by `chrono` and `chrono_tz`.
use vstd::prelude::*;
use std::str::FromStr;
use std::fmt::Write;
use chrono::{Datelike, TimeZone, Timelike};
use crate::text::{append, append_str, from_chars, lower, lower_exec, split_exec, split_seq, to_chars, trim, trim_exec, vv};
use crate::timezones::{parse_timezone, parse_timezone_ok, parse_timezone_spec, ZoneSpec, ZoneSpecView};
use crate::commands::{signed_decimal, signed_decimal_exec};
use crate::shared::views;

verus! {

/// A calendar date: year, month, day.
pub type Date = (i32, u32, u32);

/// A clock reading: hour, minute, second and nanosecond.
pub type Clock = (u32, u32, u32, u32);

/// What a zone's clock shows at an instant: the zone's name, the local
/// date, and the local time as `%H:%M:%S` followed by the zone,
/// as `%H:%M:%S`, and as `%Y-%m-%d %H:%M:%S`.
pub struct LocalTime {
    pub label: String,
    pub date: Date,
    pub zoned: String,
    pub short: String,
    pub full: String,
}

pub open spec fn local_view(t: LocalTime) -> (Seq<char>, Date, Seq<char>, Seq<char>, Seq<char>) {
    (t.label@, t.date, t.zoned@, t.short@, t.full@)
}

pub open spec fn opt_local(t: Option<LocalTime>) -> Option<(Seq<char>, Date, Seq<char>, Seq<char>, Seq<char>)> {
    match t {
        Some(l) => Some(local_view(l)),
        None => None,
    }
}

/// The time formats of the `time` command: the source zone's time with the
/// zone after it (a named zone shows its abbreviation, an offset its
/// `+hh:mm`), the time alone, and the date with the time.
pub const NAMED_ZONED_FORMAT: &'static str = "%H:%M:%S %Z";
pub const OFFSET_ZONED_FORMAT: &'static str = "%H:%M:%S %:z";
pub const SHORT_FORMAT: &'static str = "%H:%M:%S";
pub const FULL_FORMAT: &'static str = "%Y-%m-%d %H:%M:%S";

/// The text that `chrono`'s `format` with `fmt` gives for the instant `utc`
/// in the `chrono_tz` zone `name`; none when the zone is unknown, the
/// instant out of range or the format refused.
pub uninterp spec fn named_text(name: Seq<char>, utc: i64, fmt: Seq<char>) -> Option<Seq<char>>;

/// `Tz::from_str`, `DateTime::from_timestamp`, `with_timezone`, then
/// `format(fmt)` written into a string (a formatting error gives `None`).
/// The contract ties the result to `named_text`.
#[verifier::external_body]
fn named_format(name: &str, utc: i64, fmt: &str) -> (r: Option<String>)
    ensures
        opt_text(r) == named_text(name@, utc, fmt@),
{
    let tz = chrono_tz::Tz::from_str(name).ok()?;
    let l = chrono::DateTime::from_timestamp(utc, 0)?.with_timezone(&tz);
    let mut out = String::new();
    write!(out, "{}", l.format(fmt)).ok()?;
    Some(out)
}

/// The zone's name as `chrono_tz` displays it and the local date in the
/// zone `name` at the instant `utc`.
pub uninterp spec fn named_date(name: Seq<char>, utc: i64) -> Option<(Seq<char>, Date)>;

/// `Tz::from_str`, `from_timestamp`, `with_timezone`, then the zone's
/// `to_string` and the local `year`, `month` and `day`. The contract ties
/// the result to `named_date`.
#[verifier::external_body]
fn named_day(name: &str, utc: i64) -> (r: Option<(String, Date)>)
    ensures
        opt_day(r) == named_date(name@, utc),
{
    let tz = chrono_tz::Tz::from_str(name).ok()?;
    let l = chrono::DateTime::from_timestamp(utc, 0)?.with_timezone(&tz);
    Some((tz.to_string(), (l.year(), l.month(), l.day())))
}

/// The text of `format(fmt)` for the instant `utc` at a fixed offset of
/// `secs` east of UTC.
pub uninterp spec fn offset_text(secs: i32, utc: i64, fmt: Seq<char>) -> Option<Seq<char>>;

/// `FixedOffset::east_opt`, `from_timestamp`, `with_timezone`, then
/// `format(fmt)` written into a string (a formatting error gives `None`).
/// The contract ties the result to `offset_text`.
#[verifier::external_body]
fn offset_format(secs: i32, utc: i64, fmt: &str) -> (r: Option<String>)
    ensures
        opt_text(r) == offset_text(secs, utc, fmt@),
{
    let off = chrono::FixedOffset::east_opt(secs)?;
    let l = chrono::DateTime::from_timestamp(utc, 0)?.with_timezone(&off);
    let mut out = String::new();
    write!(out, "{}", l.format(fmt)).ok()?;
    Some(out)
}

/// The offset as `FixedOffset` displays it, and the local date at that
/// offset at the instant `utc`.
pub uninterp spec fn offset_date(secs: i32, utc: i64) -> Option<(Seq<char>, Date)>;

/// `FixedOffset::east_opt`, `from_timestamp`, `with_timezone`, then the
/// offset's `to_string` and the local `year`, `month` and `day`. The
/// contract ties the result to `offset_date`.
#[verifier::external_body]
fn offset_day(secs: i32, utc: i64) -> (r: Option<(String, Date)>)
    ensures
        opt_day(r) == offset_date(secs, utc),
{
    let off = chrono::FixedOffset::east_opt(secs)?;
    let l = chrono::DateTime::from_timestamp(utc, 0)?.with_timezone(&off);
    Some((off.to_string(), (l.year(), l.month(), l.day())))
}

pub open spec fn opt_text(o: Option<String>) -> Option<Seq<char>> {
    match o {
        Some(t) => Some(t@),
        None => None,
    }
}

pub open spec fn opt_day(o: Option<(String, Date)>) -> Option<(Seq<char>, Date)> {
    match o {
        Some((l, d)) => Some((l@, d)),
        None => None,
    }
}

/// The clock of the zone `name` at instant `utc`: its name, its date, and
/// the three time texts of the `time` command.
pub open spec fn named_local(name: Seq<char>, utc: i64) -> Option<(Seq<char>, Date, Seq<char>, Seq<char>, Seq<char>)> {
    match (
        named_date(name, utc),
        named_text(name, utc, NAMED_ZONED_FORMAT@),
        named_text(name, utc, SHORT_FORMAT@),
        named_text(name, utc, FULL_FORMAT@),
    ) {
        (Some((label, date)), Some(zoned), Some(short), Some(full)) => Some((label, date, zoned, short, full)),
        _ => None,
    }
}

fn named_local_time(name: &str, utc: i64) -> (r: Option<LocalTime>)
    ensures
        opt_local(r) == named_local(name@, utc),
{
    let day = named_day(name, utc);
    let zoned = named_format(name, utc, NAMED_ZONED_FORMAT);
    let short = named_format(name, utc, SHORT_FORMAT);
    let full = named_format(name, utc, FULL_FORMAT);
    match (day, zoned, short, full) {
        (Some((label, date)), Some(zoned), Some(short), Some(full)) => Some(LocalTime { label, date, zoned, short, full }),
        _ => None,
    }
}

/// The clock at a fixed offset of `secs` east of UTC at instant `utc`.
pub open spec fn offset_local(secs: i32, utc: i64) -> Option<(Seq<char>, Date, Seq<char>, Seq<char>, Seq<char>)> {
    match (
        offset_date(secs, utc),
        offset_text(secs, utc, OFFSET_ZONED_FORMAT@),
        offset_text(secs, utc, SHORT_FORMAT@),
        offset_text(secs, utc, FULL_FORMAT@),
    ) {
        (Some((label, date)), Some(zoned), Some(short), Some(full)) => Some((label, date, zoned, short, full)),
        _ => None,
    }
}

fn offset_local_time(secs: i32, utc: i64) -> (r: Option<LocalTime>)
    ensures
        opt_local(r) == offset_local(secs, utc),
{
    let day = offset_day(secs, utc);
    let zoned = offset_format(secs, utc, OFFSET_ZONED_FORMAT);
    let short = offset_format(secs, utc, SHORT_FORMAT);
    let full = offset_format(secs, utc, FULL_FORMAT);
    match (day, zoned, short, full) {
        (Some((label, date)), Some(zoned), Some(short), Some(full)) => Some(LocalTime { label, date, zoned, short, full }),
        _ => None,
    }
}

/// The instant that the clock reading `date` `clock` names in the zone
/// `name`; none when the reading is invalid, skipped or ambiguous there.
pub uninterp spec fn named_instant(name: Seq<char>, date: Date, clock: Clock) -> Option<i64>;

/// `Tz::from_str`, then `from_local_datetime(..).single()` on the
/// reading, as a Unix timestamp. The contract ties the result to
/// `named_instant`.
#[verifier::external_body]
fn named_to_utc(name: &str, date: Date, clock: Clock) -> (r: Option<i64>)
    ensures
        r == named_instant(name@, date, clock),
{
    let tz = chrono_tz::Tz::from_str(name).ok()?;
    let d = chrono::NaiveDate::from_ymd_opt(date.0, date.1, date.2)?;
    let t = chrono::NaiveTime::from_hms_nano_opt(clock.0, clock.1, clock.2, clock.3)?;
    Some(tz.from_local_datetime(&d.and_time(t)).single()?.timestamp())
}

/// The instant that a clock reading names at a fixed offset.
pub uninterp spec fn offset_instant(secs: i32, date: Date, clock: Clock) -> Option<i64>;

/// `FixedOffset::east_opt`, then `from_local_datetime(..).single()` on
/// the reading, as a Unix timestamp. The contract ties the result to
/// `offset_instant`.
#[verifier::external_body]
fn offset_to_utc(secs: i32, date: Date, clock: Clock) -> (r: Option<i64>)
    ensures
        r == offset_instant(secs, date, clock),
{
    let off = chrono::FixedOffset::east_opt(secs)?;
    let d = chrono::NaiveDate::from_ymd_opt(date.0, date.1, date.2)?;
    let t = chrono::NaiveTime::from_hms_nano_opt(clock.0, clock.1, clock.2, clock.3)?;
    Some(off.from_local_datetime(&d.and_time(t)).single()?.timestamp())
}

/// A clock reading read from text with a `chrono` format.
pub uninterp spec fn clock_parsed(s: Seq<char>, fmt: Seq<char>) -> Option<Clock>;

/// `chrono::NaiveTime::parse_from_str`. The contract ties the result to
/// `clock_parsed`.
#[verifier::external_body]
fn parse_clock(s: &str, fmt: &str) -> (r: Option<Clock>)
    ensures
        r == clock_parsed(s@, fmt@),
{
    let t = chrono::NaiveTime::parse_from_str(s, fmt).ok()?;
    Some((t.hour(), t.minute(), t.second(), t.nanosecond()))
}

/// A zone's clock at an instant.
pub open spec fn local_of(z: ZoneSpecView, utc: i64) -> Option<(Seq<char>, Date, Seq<char>, Seq<char>, Seq<char>)> {
    match z {
        ZoneSpecView::Utc => named_local("UTC"@, utc),
        ZoneSpecView::Named(n) => named_local(n, utc),
        ZoneSpecView::Offset(s) => offset_local(s as i32, utc),
    }
}

fn local_time(z: &ZoneSpec, utc: i64) -> (r: Option<LocalTime>)
    ensures
        opt_local(r) == local_of(z.view(), utc),
{
    match z {
        ZoneSpec::Utc => named_local_time("UTC", utc),
        ZoneSpec::Named(n) => named_local_time(n.as_str(), utc),
        ZoneSpec::Offset(s) => offset_local_time(*s, utc),
    }
}

/// The instant a zone's clock reading names.
pub open spec fn instant_of(z: ZoneSpecView, date: Date, clock: Clock) -> Option<i64> {
    match z {
        ZoneSpecView::Utc => named_instant("UTC"@, date, clock),
        ZoneSpecView::Named(n) => named_instant(n, date, clock),
        ZoneSpecView::Offset(s) => offset_instant(s as i32, date, clock),
    }
}

fn to_utc(z: &ZoneSpec, date: Date, clock: Clock) -> (r: Option<i64>)
    ensures
        r == instant_of(z.view(), date, clock),
{
    match z {
        ZoneSpec::Utc => named_to_utc("UTC", date, clock),
        ZoneSpec::Named(n) => named_to_utc(n.as_str(), date, clock),
        ZoneSpec::Offset(s) => offset_to_utc(*s, date, clock),
    }
}

/// Whole hours of an offset, rounded toward zero.
pub open spec fn offset_hours(secs: int) -> int {
    if secs >= 0 {
        secs / 3600
    } else {
        -((-secs) / 3600)
    }
}

/// A signed number with its sign always written (`{:+}`).
pub open spec fn plus_signed(n: int) -> Seq<char> {
    if n >= 0 {
        "+"@ + signed_decimal(n)
    } else {
        signed_decimal(n)
    }
}

/// How a conversion names its zone: the zone's own name, or `GMT` and the
/// offset's whole hours.
pub open spec fn label_of(z: ZoneSpecView, local_label: Seq<char>) -> Seq<char> {
    match z {
        ZoneSpecView::Offset(s) => "GMT"@ + plus_signed(offset_hours(s)),
        _ => local_label,
    }
}

/// One conversion line: the zone and its time, with the date when it is
/// not the source's date.
pub open spec fn conversion_line(z: ZoneSpecView, utc: i64, source_date: Date) -> Option<Seq<char>> {
    match local_of(z, utc) {
        None => None,
        Some((label, date, _zoned, short, full)) => Some(
            "**"@ + label_of(z, label) + ":** "@ + if date == source_date {
                short
            } else {
                full
            },
        ),
    }
}

fn conversion_line_exec(z: &ZoneSpec, utc: i64, source_date: Date) -> (r: Option<Vec<char>>)
    ensures
        match r {
            Some(l) => conversion_line(z.view(), utc, source_date) == Some(l@),
            None => conversion_line(z.view(), utc, source_date) is None,
        },
{
    let t = match local_time(z, utc) {
        Some(t) => t,
        None => return None,
    };
    let mut out = to_chars("**");
    match z {
        ZoneSpec::Offset(s) => {
            let s64: i64 = *s as i64;
            let h: i64 = if s64 >= 0 {
                s64 / 3600
            } else {
                -((-s64) / 3600)
            };
            append_str(&mut out, "GMT");
            if h >= 0 {
                append_str(&mut out, "+");
            }
            append(&mut out, signed_decimal_exec(h).as_slice());
        },
        _ => append_str(&mut out, t.label.as_str()),
    }
    append_str(&mut out, ":** ");
    let same = t.date.0 == source_date.0 && t.date.1 == source_date.1 && t.date.2 == source_date.2;
    if same {
        append_str(&mut out, t.short.as_str());
    } else {
        append_str(&mut out, t.full.as_str());
    }
    Some(out)
}

pub open spec fn opt_str(o: Option<&str>) -> Option<Seq<char>> {
    match o {
        Some(s) => Some(s@),
        None => None,
    }
}

/// The zones to convert to: the comma-separated list, each trimmed, or UTC
/// alone.
pub open spec fn targets_spec(to_tz: Option<Seq<char>>) -> Seq<Seq<char>> {
    match to_tz {
        None => seq!["UTC"@],
        Some(l) => split_seq(l, ","@).map_values(|p: Seq<char>| trim(p)),
    }
}

pub fn time_targets(to_tz: Option<&str>) -> (r: Vec<String>)
    ensures
        views(r@) == targets_spec(opt_str(to_tz)),
{
    match to_tz {
        None => {
            let mut r: Vec<String> = Vec::new();
            r.push("UTC".to_string());
            assert(views(r@) =~= seq!["UTC"@]);
            r
        },
        Some(l) => {
            let c = to_chars(l);
            let comma = to_chars(",");
            proof {
                reveal_strlit(",");
            }
            let parts = split_exec(c.as_slice(), comma.as_slice());
            let ghost target = vv(parts@).map_values(|p: Seq<char>| trim(p));
            let mut r: Vec<String> = Vec::new();
            let mut i: usize = 0;
            while i < parts.len()
                invariant
                    i <= parts@.len(),
                    target == vv(parts@).map_values(|p: Seq<char>| trim(p)),
                    r@.len() == i,
                    forall|j: int| 0 <= j < i ==> #[trigger] r@[j]@ == target[j],
                decreases parts@.len() - i,
            {
                r.push(from_chars(trim_exec(parts[i].as_slice())));
                i += 1;
            }
            assert(views(r@) =~= target);
            r
        },
    }
}

/// Every zone name of the command can be read without a fault.
pub open spec fn zones_ok(from: Seq<char>, targets: Seq<Seq<char>>) -> bool {
    parse_timezone_ok(from) && forall|i: int| 0 <= i < targets.len() ==> parse_timezone_ok(#[trigger] targets[i])
}

/// The zones read from the targets in order, or the first error.
pub open spec fn parse_all(ts: Seq<Seq<char>>) -> Result<Seq<ZoneSpecView>, Seq<char>>
    decreases ts.len(),
{
    if ts.len() == 0 {
        Ok(seq![])
    } else {
        match parse_all(ts.drop_last()) {
            Err(e) => Err(e),
            Ok(zs) => match parse_timezone_spec(ts.last()) {
                Err(e) => Err(e),
                Ok(z) => Ok(zs.push(z)),
            },
        }
    }
}

pub open spec fn zone_views(zs: Seq<ZoneSpec>) -> Seq<ZoneSpecView> {
    zs.map_values(|z: ZoneSpec| z.view())
}

fn parse_targets(ts: &Vec<String>) -> (r: Result<Vec<ZoneSpec>, String>)
    requires
        forall|i: int| 0 <= i < ts@.len() ==> parse_timezone_ok(#[trigger] ts@[i]@),
    ensures
        match r {
            Ok(zs) => parse_all(views(ts@)) == Ok::<Seq<ZoneSpecView>, Seq<char>>(zone_views(zs@)),
            Err(e) => parse_all(views(ts@)) == Err::<Seq<ZoneSpecView>, Seq<char>>(e@),
        },
{
    let mut zs: Vec<ZoneSpec> = Vec::new();
    let mut i: usize = 0;
    assert(views(ts@).take(0) =~= Seq::<Seq<char>>::empty());
    assert(zone_views(zs@) =~= Seq::<ZoneSpecView>::empty());
    while i < ts.len()
        invariant
            i <= ts@.len(),
            forall|j: int| 0 <= j < ts@.len() ==> parse_timezone_ok(#[trigger] ts@[j]@),
            parse_all(views(ts@).take(i as int)) == Ok::<Seq<ZoneSpecView>, Seq<char>>(zone_views(zs@)),
        decreases ts@.len() - i,
    {
        let ghost t = views(ts@).take(i as int + 1);
        assert(t.drop_last() =~= views(ts@).take(i as int));
        assert(t.last() == ts@[i as int]@);
        match parse_timezone(ts[i].as_str()) {
            Ok(z) => {
                let ghost before = zs@;
                zs.push(z);
                assert(zone_views(zs@) =~= zone_views(before).push(z.view()));
            },
            Err(e) => {
                proof {
                    lemma_parse_all_err(views(ts@), i as int + 1);
                }
                return Err(e);
            },
        }
        i += 1;
    }
    assert(views(ts@).take(ts@.len() as int) =~= views(ts@));
    Ok(zs)
}

/// Once a prefix fails, the whole list fails with the same error.
proof fn lemma_parse_all_err(ts: Seq<Seq<char>>, k: int)
    requires
        0 <= k <= ts.len(),
        parse_all(ts.take(k)) is Err,
    ensures
        parse_all(ts) == parse_all(ts.take(k)),
    decreases ts.len() - k,
{
    if k < ts.len() {
        assert(ts.take(k + 1).drop_last() =~= ts.take(k));
        lemma_parse_all_err(ts, k + 1);
    } else {
        assert(ts.take(k) =~= ts);
    }
}

/// The instant the command is about: now, or the given clock reading of
/// today in the source zone.
pub open spec fn instant_spec(time: Seq<char>, source: ZoneSpecView, now_utc: i64, today: Date) -> Result<i64, Seq<char>> {
    if lower(time) == "now"@ {
        Ok(now_utc)
    } else {
        let c = match clock_parsed(time, "%H:%M"@) {
            Some(c) => Some(c),
            None => clock_parsed(time, "%H:%M:%S"@),
        };
        match c {
            None => Err("Invalid time format. Use HH:MM or HH:MM:SS"@),
            Some(c) => match instant_of(source, today, c) {
                Some(u) => Ok(u),
                None => Err("Ambiguous local time"@),
            },
        }
    }
}

/// The conversion lines, each followed by a line break.
pub open spec fn conversion_lines(zs: Seq<ZoneSpecView>, utc: i64, source_date: Date) -> Option<Seq<char>>
    decreases zs.len(),
{
    if zs.len() == 0 {
        Some(seq![])
    } else {
        match (conversion_lines(zs.drop_last(), utc, source_date), conversion_line(zs.last(), utc, source_date)) {
            (Some(a), Some(l)) => Some(a + l + "\n"@),
            _ => None,
        }
    }
}

/// The reply of the `time` command: the zones are read (source first),
/// then the time; the source's clock and each target's follow. Errors are
/// the first zone or time that cannot be read; a clock that `chrono`
/// cannot show the instant in (never one it computed itself) gives
/// `Time out of range`.
pub open spec fn time_reply_spec(
    time: Seq<char>,
    from_tz: Option<Seq<char>>,
    to_tz: Option<Seq<char>>,
    now_utc: i64,
    today: Date,
) -> Result<Seq<char>, Seq<char>> {
    let t = trim(time);
    let from = trim(
        match from_tz {
            Some(f) => f,
            None => "UTC"@,
        },
    );
    match parse_timezone_spec(from) {
        Err(e) => Err(e),
        Ok(source) => match parse_all(targets_spec(to_tz)) {
            Err(e) => Err(e),
            Ok(targets) => match instant_spec(t, source, now_utc, today) {
                Err(e) => Err(e),
                Ok(utc) => match local_of(source, utc) {
                    None => Err("Time out of range"@),
                    Some((_label, date, zoned, _short, _full)) => match conversion_lines(targets, utc, date) {
                        None => Err("Time out of range"@),
                        Some(lines) => Ok(
                            "**"@ + t + " in "@ + from + ":**\n"@ + zoned + "\n\n**Conversions:**\n"@ + lines,
                        ),
                    },
                },
            },
        },
    }
}

/// Whether `time_reply` may be called: every zone it reads can be read
/// without a fault.
#[verifier::loop_isolation(false)]
pub fn time_reply_is_safe(from_tz: Option<&str>, to_tz: Option<&str>) -> (r: bool)
    ensures
        r == zones_ok(
            trim(
                match from_tz {
                    Some(f) => f@,
                    None => "UTC"@,
                },
            ),
            targets_spec(opt_str(to_tz)),
        ),
{
    let f = match from_tz {
        Some(f) => f,
        None => "UTC",
    };
    let fc = to_chars(f);
    let from = from_chars(trim_exec(fc.as_slice()));
    let targets = time_targets(to_tz);
    if !crate::timezones::parse_timezone_is_safe(from.as_str()) {
        return false;
    }
    let mut i: usize = 0;
    while i < targets.len()
        invariant
            i <= targets@.len(),
            forall|j: int| 0 <= j < i ==> parse_timezone_ok(#[trigger] targets@[j]@),
        decreases targets@.len() - i,
    {
        if !crate::timezones::parse_timezone_is_safe(targets[i].as_str()) {
            assert(views(targets@)[i as int] == targets@[i as int]@);
            assert(!parse_timezone_ok(targets_spec(opt_str(to_tz))[i as int]));
            return false;
        }
        i += 1;
    }
    assert forall|j: int| 0 <= j < views(targets@).len() implies parse_timezone_ok(
        #[trigger] views(targets@)[j],
    ) by {
        assert(views(targets@)[j] == targets@[j]@);
    }
    true
}

/// The `time` command on any input: `None` when reading one of the zones
/// would cut a character apart (see `zones_ok`), else `time_reply`'s
/// answer.
pub fn time_command(time: &str, from_tz: Option<&str>, to_tz: Option<&str>, now_utc: i64, today: Date) -> (r: Option<
    Result<String, String>,
>)
    ensures
        r is None <==> !zones_ok(
            trim(
                match from_tz {
                    Some(f) => f@,
                    None => "UTC"@,
                },
            ),
            targets_spec(opt_str(to_tz)),
        ),
        match r {
            Some(Ok(s)) => time_reply_spec(time@, opt_str(from_tz), opt_str(to_tz), now_utc, today) == Ok::<
                Seq<char>,
                Seq<char>,
            >(s@),
            Some(Err(e)) => time_reply_spec(time@, opt_str(from_tz), opt_str(to_tz), now_utc, today) == Err::<
                Seq<char>,
                Seq<char>,
            >(e@),
            None => true,
        },
{
    if time_reply_is_safe(from_tz, to_tz) {
        Some(time_reply(time, from_tz, to_tz, now_utc, today))
    } else {
        None
    }
}

/// The reply of the `time` command (see `time_reply_spec`); `now_utc` is
/// the current instant and `today` the host's local date.
#[verifier::loop_isolation(false)]
pub fn time_reply(time: &str, from_tz: Option<&str>, to_tz: Option<&str>, now_utc: i64, today: Date) -> (r: Result<
    String,
    String,
>)
    requires
        zones_ok(
            trim(
                match from_tz {
                    Some(f) => f@,
                    None => "UTC"@,
                },
            ),
            targets_spec(opt_str(to_tz)),
        ),
    ensures
        match r {
            Ok(s) => time_reply_spec(time@, opt_str(from_tz), opt_str(to_tz), now_utc, today) == Ok::<
                Seq<char>,
                Seq<char>,
            >(s@),
            Err(e) => time_reply_spec(time@, opt_str(from_tz), opt_str(to_tz), now_utc, today) == Err::<
                Seq<char>,
                Seq<char>,
            >(e@),
        },
{
    let tc = to_chars(time);
    let t = from_chars(trim_exec(tc.as_slice()));
    let f = match from_tz {
        Some(f) => f,
        None => "UTC",
    };
    let fc = to_chars(f);
    let from = from_chars(trim_exec(fc.as_slice()));
    let source = match parse_timezone(from.as_str()) {
        Ok(z) => z,
        Err(e) => return Err(e),
    };
    let names = time_targets(to_tz);
    proof {
        assert forall|i: int| 0 <= i < names@.len() implies parse_timezone_ok(#[trigger] names@[i]@) by {
            assert(views(names@)[i] == names@[i]@);
        }
    }
    let targets = match parse_targets(&names) {
        Ok(zs) => zs,
        Err(e) => return Err(e),
    };
    let tl = to_chars(t.as_str());
    let utc = if crate::text::eq_str(lower_exec(tl.as_slice()).as_slice(), "now") {
        now_utc
    } else {
        let c = match parse_clock(t.as_str(), "%H:%M") {
            Some(c) => Some(c),
            None => parse_clock(t.as_str(), "%H:%M:%S"),
        };
        match c {
            None => return Err("Invalid time format. Use HH:MM or HH:MM:SS".to_string()),
            Some(c) => match to_utc(&source, today, c) {
                Some(u) => u,
                None => return Err("Ambiguous local time".to_string()),
            },
        }
    };
    let src = match local_time(&source, utc) {
        Some(l) => l,
        None => return Err("Time out of range".to_string()),
    };
    let mut out = to_chars("**");
    append_str(&mut out, t.as_str());
    append_str(&mut out, " in ");
    append_str(&mut out, from.as_str());
    append_str(&mut out, ":**\n");
    append_str(&mut out, src.zoned.as_str());
    append_str(&mut out, "\n\n**Conversions:**\n");
    let ghost head = out@;
    let mut i: usize = 0;
    assert(zone_views(targets@).take(0) =~= Seq::<ZoneSpecView>::empty());
    assert(head =~= head + Seq::<char>::empty());
    while i < targets.len()
        invariant
            i <= targets@.len(),
            conversion_lines(zone_views(targets@).take(i as int), utc, src.date) == Some(out@.skip(head.len() as int)),
            out@.len() >= head.len(),
            out@.take(head.len() as int) == head,
        decreases targets@.len() - i,
    {
        let ghost zt = zone_views(targets@).take(i as int + 1);
        assert(zt.drop_last() =~= zone_views(targets@).take(i as int));
        assert(zt.last() == targets@[i as int].view());
        let ghost before = out@;
        match conversion_line_exec(&targets[i], utc, src.date) {
            Some(l) => {
                append(&mut out, l.as_slice());
                append_str(&mut out, "\n");
                assert(out@.skip(head.len() as int) =~= before.skip(head.len() as int) + l@ + "\n"@);
                assert(out@.take(head.len() as int) =~= before.take(head.len() as int));
            },
            None => {
                proof {
                    lemma_lines_none(zone_views(targets@), i as int + 1, utc, src.date);
                }
                return Err("Time out of range".to_string());
            },
        }
        i += 1;
    }
    assert(zone_views(targets@).take(targets@.len() as int) =~= zone_views(targets@));
    assert(out@ =~= head + out@.skip(head.len() as int));
    Ok(from_chars(out.as_slice()))
}

/// Once a prefix has a line that cannot be made, the whole list has none.
proof fn lemma_lines_none(zs: Seq<ZoneSpecView>, k: int, utc: i64, d: Date)
    requires
        0 <= k <= zs.len(),
        conversion_lines(zs.take(k), utc, d) is None,
    ensures
        conversion_lines(zs, utc, d) is None,
    decreases zs.len() - k,
{
    if k < zs.len() {
        assert(zs.take(k + 1).drop_last() =~= zs.take(k));
        lemma_lines_none(zs, k + 1, utc, d);
    } else {
        assert(zs.take(k) =~= zs);
    }
}


// ------------------------------------------------------- the timezone command

/// The two formats in which the `timezone` command shows a zone's time:
/// 24-hour with the zone's abbreviation and offset, and 12-hour.
pub const TZ_24H_FORMAT: &'static str = "%a, %b %d %Y %H:%M:%S %Z (%:z)";
pub const TZ_12H_FORMAT: &'static str = "%a, %b %d %Y %I:%M:%S %p";

/// The offset east of UTC, in seconds, that the `chrono_tz` zone `name`
/// has at the instant `utc`.
pub uninterp spec fn named_offset(name: Seq<char>, utc: i64) -> Option<i32>;

/// `Tz::from_str`, `from_timestamp` and `with_timezone`, then
/// `offset().fix().local_minus_utc()`. The contract ties the result to
/// `named_offset`, and bounds it as a `FixedOffset` always is (strictly
/// within a day).
#[verifier::external_body]
fn named_offset_secs(name: &str, utc: i64) -> (r: Option<i32>)
    ensures
        match r {
            Some(o) => named_offset(name@, utc) == Some(o) && -86_400 < o < 86_400,
            None => named_offset(name@, utc) is None,
        },
{
    let tz = chrono_tz::Tz::from_str(name).ok()?;
    let dt = chrono::DateTime::from_timestamp(utc, 0)?.with_timezone(&tz);
    Some(chrono::Offset::fix(dt.offset()).local_minus_utc())
}

/// The current time in the zone `name` as the `timezone` command shows it:
/// 24-hour and 12-hour texts, and the zone's offset east of UTC in seconds.
pub open spec fn zone_clock_texts(name: Seq<char>, utc: i64) -> Option<(Seq<char>, Seq<char>, i32)> {
    match (
        named_text(name, utc, TZ_24H_FORMAT@),
        named_text(name, utc, TZ_12H_FORMAT@),
        named_offset(name, utc),
    ) {
        (Some(t24), Some(t12), Some(off)) => Some((t24, t12, off)),
        _ => None,
    }
}

fn zone_clock(name: &str, utc: i64) -> (r: Option<(String, String, i32)>)
    ensures
        match r {
            Some((a, b, o)) => zone_clock_texts(name@, utc) == Some((a@, b@, o)) && -86_400 < o < 86_400,
            None => zone_clock_texts(name@, utc) is None,
        },
{
    let t24 = named_format(name, utc, TZ_24H_FORMAT);
    let t12 = named_format(name, utc, TZ_12H_FORMAT);
    let off = named_offset_secs(name, utc);
    match (t24, t12, off) {
        (Some(a), Some(b), Some(o)) => Some((a, b, o)),
        _ => None,
    }
}

/// What the time zone service answered for a user.
pub enum TzLookup {
    Found(String),
    NotRegistered,
    Failed,
}

/// The address at which the time zone service is asked about a user.
pub fn timezone_lookup_url(user_id: u64) -> (r: String)
    ensures
        r@ == "https://timezone.creations.works/v1/get?id="@ + crate::num::decimal(user_id as nat),
{
    let mut out = to_chars("https://timezone.creations.works/v1/get?id=");
    append(&mut out, crate::num::decimal_exec(user_id).as_slice());
    from_chars(out.as_slice())
}

/// The `timezone` command's reply about `name` (the user `target_id`, asked
/// about by `caller_id`): a refusal when the user has no zone, the service
/// failed or its zone is unknown; else the zone and its time, and, only
/// when the caller is someone else whose own lookup gave a known zone, how
/// far ahead or behind the user is.
pub open spec fn timezone_reply_spec(
    name: Seq<char>,
    target_id: u64,
    caller_id: u64,
    target: TzLookup,
    caller: Option<TzLookup>,
    now_utc: i64,
) -> Result<
    Seq<char>,
    Seq<char>,
> {
    match target {
        TzLookup::NotRegistered => Err(
            "**"@ + name + "** has not registered a timezone. They can set one at <https://timezone.creations.works/>."@,
        ),
        TzLookup::Failed => Err("Failed to reach the timezone service."@),
        TzLookup::Found(tz) => match zone_clock_texts(tz@, now_utc) {
            None => Err("Invalid timezone returned for **"@ + name + "**: `"@ + tz@ + "`"@),
            Some((t24, t12, toff)) => {
                let base = "**"@ + name + "**\nTimezone: `"@ + tz@ + "`\n24h: "@ + t24 + "\n12h: "@ + t12;
                let diff = if target_id == caller_id {
                    seq![]
                } else {
                    match caller {
                    Some(TzLookup::Found(ctz)) => match zone_clock_texts(ctz@, now_utc) {
                        Some((_, _, coff)) => "\n\n-# "@ + name + " is "@ + crate::timezones::format_diff_spec(
                            toff,
                            coff,
                        ) + "."@,
                        None => seq![],
                    },
                    _ => seq![],
                    }
                };
                Ok(base + diff)
            },
        },
    }
}

/// Whether the `timezone` command asks the service about the caller too:
/// only when the caller asked about someone else, whose zone is known.
pub open spec fn wants_caller_lookup_spec(target_id: u64, caller_id: u64, target: TzLookup, now_utc: i64) -> bool {
    target_id != caller_id && (target matches TzLookup::Found(tz) && zone_clock_texts(tz@, now_utc) is Some)
}

pub fn wants_caller_lookup(target_id: u64, caller_id: u64, target: &TzLookup, now_utc: i64) -> (r: bool)
    ensures
        r == wants_caller_lookup_spec(target_id, caller_id, *target, now_utc),
{
    if target_id == caller_id {
        return false;
    }
    match target {
        TzLookup::Found(tz) => zone_clock(tz.as_str(), now_utc).is_some(),
        _ => false,
    }
}

pub fn timezone_reply(
    name: &str,
    target_id: u64,
    caller_id: u64,
    target: &TzLookup,
    caller: &Option<TzLookup>,
    now_utc: i64,
) -> (r: Result<String, String>)
    ensures
        match r {
            Ok(s) => timezone_reply_spec(name@, target_id, caller_id, *target, *caller, now_utc) == Ok::<
                Seq<char>,
                Seq<char>,
            >(s@),
            Err(e) => timezone_reply_spec(name@, target_id, caller_id, *target, *caller, now_utc) == Err::<
                Seq<char>,
                Seq<char>,
            >(e@),
        },
{
    let tz = match target {
        TzLookup::NotRegistered => {
            let mut m = to_chars("**");
            append_str(&mut m, name);
            append_str(
                &mut m,
                "** has not registered a timezone. They can set one at <https://timezone.creations.works/>.",
            );
            return Err(from_chars(m.as_slice()));
        },
        TzLookup::Failed => return Err("Failed to reach the timezone service.".to_string()),
        TzLookup::Found(tz) => tz,
    };
    let (t24, t12, toff) = match zone_clock(tz.as_str(), now_utc) {
        Some(x) => x,
        None => {
            let mut m = to_chars("Invalid timezone returned for **");
            append_str(&mut m, name);
            append_str(&mut m, "**: `");
            append_str(&mut m, tz.as_str());
            append_str(&mut m, "`");
            return Err(from_chars(m.as_slice()));
        },
    };
    let mut out = to_chars("**");
    append_str(&mut out, name);
    append_str(&mut out, "**\nTimezone: `");
    append_str(&mut out, tz.as_str());
    append_str(&mut out, "`\n24h: ");
    append_str(&mut out, t24.as_str());
    append_str(&mut out, "\n12h: ");
    append_str(&mut out, t12.as_str());
    let ghost base = out@;
    assert(base == "**"@ + name@ + "**\nTimezone: `"@ + tz@ + "`\n24h: "@ + t24@ + "\n12h: "@ + t12@);
    if target_id == caller_id {
        assert(out@ =~= base + Seq::<char>::empty());
        return Ok(from_chars(out.as_slice()));
    }
    match caller {
        Some(TzLookup::Found(ctz)) => {
            match zone_clock(ctz.as_str(), now_utc) {
                Some((_, _, coff)) => {
                    append_str(&mut out, "\n\n-# ");
                    append_str(&mut out, name);
                    append_str(&mut out, " is ");
                    append_str(&mut out, crate::timezones::format_diff(toff, coff).as_str());
                    append_str(&mut out, ".");
                    assert(out@ =~= base + ("\n\n-# "@ + name@ + " is "@ + crate::timezones::format_diff_spec(toff, coff) + "."@));
                },
                None => {
                    assert(out@ =~= base + Seq::<char>::empty());
                },
            }
        },
        _ => {
            assert(out@ =~= base + Seq::<char>::empty());
        },
    }
    Ok(from_chars(out.as_slice()))
}

} // verus!
