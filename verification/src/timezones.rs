//! Time zones as users type them, and how far apart two zones are.
use vstd::prelude::*;
use std::str::FromStr;
use crate::text::{
    append, append_str, from_chars, replace, replace_str, starts_with, starts_with_str, strip_prefix,
    strip_prefix_exec, to_chars,
};
use crate::num::{decimal, decimal_exec, parse_i32, parse_i32_spec};
use crate::git_file::{at_boundary, chars_for_bytes};

verus! {

/// A count and its unit, plural unless the count is one (`2 hours`).
pub open spec fn plural(n: int, unit: Seq<char>) -> Seq<char> {
    decimal(n as nat) + " "@ + unit + if n == 1 {
        seq![]
    } else {
        "s"@
    }
}

/// How a target's UTC offset compares with the caller's, in words.
pub open spec fn format_diff_spec(target: i32, caller: i32) -> Seq<char> {
    let d = target - caller;
    if d == 0 {
        "the same time as you"@
    } else {
        let a = if d < 0 { -d } else { d };
        let hours = a / 3600;
        let minutes = (a % 3600) / 60;
        let parts = if hours > 0 && minutes > 0 {
            plural(hours, "hour"@) + " "@ + plural(minutes, "minute"@)
        } else if hours > 0 {
            plural(hours, "hour"@)
        } else if minutes > 0 {
            plural(minutes, "minute"@)
        } else {
            seq![]
        };
        parts + " "@ + (if d > 0 { "ahead of"@ } else { "behind"@ }) + " you"@
    }
}

fn plural_exec(n: i32, unit: &str) -> (r: Vec<char>)
    requires
        n >= 0,
    ensures
        r@ == plural(n as int, unit@),
{
    let mut out = decimal_exec(n as u64);
    append_str(&mut out, " ");
    append_str(&mut out, unit);
    if n != 1 {
        append_str(&mut out, "s");
    }
    out
}

/// The difference between two UTC offsets (in seconds) in words (see
/// `format_diff_spec`).
pub fn format_diff(target_offset_secs: i32, caller_offset_secs: i32) -> (r: String)
    requires
        i32::MIN < target_offset_secs - caller_offset_secs <= i32::MAX,
    ensures
        r@ == format_diff_spec(target_offset_secs, caller_offset_secs),
{
    let d = target_offset_secs - caller_offset_secs;
    if d == 0 {
        return "the same time as you".to_string();
    }
    let a = if d < 0 { -d } else { d };
    let hours = a / 3600;
    let minutes = (a % 3600) / 60;
    let mut out: Vec<char> = Vec::new();
    if hours > 0 {
        let h = plural_exec(hours, "hour");
        append(&mut out, h.as_slice());
    }
    if minutes > 0 {
        if hours > 0 {
            append_str(&mut out, " ");
        }
        let m = plural_exec(minutes, "minute");
        append(&mut out, m.as_slice());
    }
    append_str(&mut out, " ");
    if d > 0 {
        append_str(&mut out, "ahead of");
    } else {
        append_str(&mut out, "behind");
    }
    append_str(&mut out, " you");
    from_chars(out.as_slice())
}

/// `str::to_uppercase`: the Unicode upper case of a text. What the
/// standard library computes; its case tables are not restated here.
pub uninterp spec fn unicode_upper(s: Seq<char>) -> Seq<char>;

/// The upper case of an ASCII character: `a` to `z` become `A` to `Z`,
/// every other character stays.
pub open spec fn ascii_upper_char(c: char) -> char {
    if 'a' <= c && c <= 'z' {
        ((c as u32) - 32) as char
    } else {
        c
    }
}

/// The upper case of a text as `str::to_uppercase` gives it: spelled out
/// for an all-ASCII text, the standard library's result otherwise.
pub open spec fn upper_text(s: Seq<char>) -> Seq<char> {
    if forall|i: int| 0 <= i < s.len() ==> (s[i] as u32) < 128 {
        s.map_values(|c: char| ascii_upper_char(c))
    } else {
        unicode_upper(s)
    }
}

/// `str::to_uppercase`. The contract ties the result to `unicode_upper`,
/// and, as the standard library documents for ASCII text, says that an
/// all-ASCII text comes back with `a` to `z` raised and nothing else
/// changed; of other text it claims nothing more.
#[verifier::external_body]
fn to_upper(s: &str) -> (r: String)
    ensures
        r@ == unicode_upper(s@),
        (forall|i: int| 0 <= i < s@.len() ==> (s@[i] as u32) < 128) ==> r@ == s@.map_values(
            |c: char| ascii_upper_char(c),
        ),
{
    s.to_uppercase()
}

/// Whether `chrono_tz` knows a time zone by this exact name.
pub uninterp spec fn tz_name_known(name: Seq<char>) -> bool;

/// Calls `chrono_tz::Tz::from_str` and reports whether it found the zone.
/// The contract ties the answer to `tz_name_known` and claims nothing else.
#[verifier::external_body]
fn is_tz_name(name: &str) -> (r: bool)
    ensures
        r == tz_name_known(name@),
{
    chrono_tz::Tz::from_str(name).is_ok()
}

/// Calls `chrono::FixedOffset::east_opt` and reports whether it accepted
/// the offset: its source accepts exactly the offsets strictly within a
/// day either way.
#[verifier::external_body]
fn fixed_offset_ok(secs: i32) -> (r: bool)
    ensures
        r == (-86_400 < secs && secs < 86_400),
{
    chrono::FixedOffset::east_opt(secs).is_some()
}

/// A time zone as a user names it.
pub enum ZoneSpecView {
    Utc,
    Named(Seq<char>),
    Offset(int),
}

pub enum ZoneSpec {
    /// UTC itself.
    Utc,
    /// A zone of the time zone database, by its name.
    Named(String),
    /// A fixed offset east of UTC, in seconds.
    Offset(i32),
}

impl ZoneSpec {
    pub open spec fn view(&self) -> ZoneSpecView {
        match self {
            ZoneSpec::Utc => ZoneSpecView::Utc,
            ZoneSpec::Named(n) => ZoneSpecView::Named(n@),
            ZoneSpec::Offset(s) => ZoneSpecView::Offset(*s as int),
        }
    }
}

/// The database name of a common abbreviation, or the text itself.
pub open spec fn zone_alias(upper: Seq<char>, given: Seq<char>) -> Seq<char> {
    if upper == "EST"@ {
        "America/New_York"@
    } else if upper == "PST"@ {
        "America/Los_Angeles"@
    } else if upper == "CST"@ {
        "America/Chicago"@
    } else if upper == "MST"@ {
        "America/Denver"@
    } else if upper == "JST"@ {
        "Asia/Tokyo"@
    } else if upper == "CET"@ {
        "Europe/Paris"@
    } else {
        given
    }
}

/// The offset text after `GMT` or `UTC`, upper-cased.
pub open spec fn offset_text(upper: Seq<char>) -> Seq<char> {
    match strip_prefix(upper, "GMT"@) {
        Some(r) => r,
        None => match strip_prefix(upper, "UTC"@) {
            Some(r) => r,
            None => seq![],
        },
    }
}

/// The hours and minutes parts of an offset's digits: the first two bytes
/// and the rest when it is longer than two bytes.
pub open spec fn offset_parts(rest: Seq<char>) -> (Seq<char>, Option<Seq<char>>) {
    if crate::text::byte_len(rest) <= 2 {
        (rest, None)
    } else {
        let k = chars_for_bytes(rest, 2) as int;
        (rest.take(k), Some(rest.skip(k)))
    }
}

pub open spec fn signed_rest(o: Seq<char>) -> Option<(int, Seq<char>)> {
    match strip_prefix(o, "+"@) {
        Some(r) => Some((1, r)),
        None => match strip_prefix(o, "-"@) {
            Some(r) => Some((-1, r)),
            None => None,
        },
    }
}

/// What a user's time zone text names: `GMT`/`UTC` with an optional
/// `+hh[:mm]`/`-hh[:mm]` offset (within a day), a common abbreviation, or
/// a database name; the error message otherwise.
pub open spec fn parse_timezone_spec(tz: Seq<char>) -> Result<ZoneSpecView, Seq<char>> {
    let upper = upper_text(tz);
    if starts_with(upper, "GMT"@) || starts_with(upper, "UTC"@) {
        let o = offset_text(upper);
        if o.len() == 0 || o == "+0"@ || o == "+00:00"@ || o == "-0"@ {
            Ok(ZoneSpecView::Utc)
        } else {
            let o2 = replace(o, ":"@, seq![]);
            match signed_rest(o2) {
                None => Err("Invalid offset format: "@ + tz),
                Some((sign, rest)) => {
                    let (hs, ms) = offset_parts(rest);
                    match parse_i32_spec(hs) {
                        None => Err("Invalid offset: "@ + tz),
                        Some(h) => {
                            let m: Option<i32> = match ms {
                                Some(t) => parse_i32_spec(t),
                                None => Some(0),
                            };
                            match m {
                                None => Err("Invalid offset: "@ + tz),
                                Some(mi) => {
                                    let total = sign * (h * 3600 + mi * 60);
                                    if -86_400 < total < 86_400 {
                                        Ok(ZoneSpecView::Offset(total))
                                    } else {
                                        Err("Invalid offset: "@ + tz)
                                    }
                                },
                            }
                        },
                    }
                },
            }
        }
    } else {
        let name = zone_alias(upper, tz);
        if tz_name_known(name) {
            Ok(ZoneSpecView::Named(name))
        } else {
            Err("Invalid timezone: "@ + tz)
        }
    }
}

/// Reading `tz` never slices its offset inside a character, and the offset
/// arithmetic stays within `i32`.
pub open spec fn parse_timezone_ok(tz: Seq<char>) -> bool {
    let upper = upper_text(tz);
    let o = offset_text(upper);
    let o2 = replace(o, ":"@, seq![]);
    (starts_with(upper, "GMT"@) || starts_with(upper, "UTC"@)) && !(o.len() == 0 || o == "+0"@ || o
        == "+00:00"@ || o == "-0"@) ==> match signed_rest(o2) {
        None => true,
        Some((sign, rest)) => (crate::text::byte_len(rest) > 2 ==> at_boundary(rest, 2)) && match parse_i32_spec(
            offset_parts(rest).0,
        ) {
            None => true,
            Some(h) => match offset_parts(rest).1 {
                Some(t) => match parse_i32_spec(t) {
                    Some(mi) => i32::MIN <= mi * 60 <= i32::MAX && i32::MIN <= h * 3600 + mi * 60 <= i32::MAX
                        && i32::MIN <= sign * (h * 3600 + mi * 60) <= i32::MAX,
                    None => true,
                },
                None => true,
            },
        },
    }
}

fn invalid(prefix: &str, tz: &str) -> (r: String)
    ensures
        r@ == prefix@ + tz@,
{
    let mut m = to_chars(prefix);
    append_str(&mut m, tz);
    from_chars(m.as_slice())
}

/// Reads a time zone a user typed (see `parse_timezone_spec`).
pub fn parse_timezone(tz_str: &str) -> (r: Result<ZoneSpec, String>)
    requires
        parse_timezone_ok(tz_str@),
    ensures
        match r {
            Ok(z) => parse_timezone_spec(tz_str@) == Ok::<ZoneSpecView, Seq<char>>(z.view()),
            Err(e) => parse_timezone_spec(tz_str@) == Err::<ZoneSpecView, Seq<char>>(e@),
        },
{
    let upper_s = to_upper(tz_str);
    let upper = to_chars(upper_s.as_str());
    if starts_with_str(upper.as_slice(), "GMT") || starts_with_str(upper.as_slice(), "UTC") {
        let gmt = to_chars("GMT");
        let utc = to_chars("UTC");
        let o: Vec<char> = match strip_prefix_exec(upper.as_slice(), gmt.as_slice()) {
            Some(r) => vstd::slice::slice_to_vec(r),
            None => match strip_prefix_exec(upper.as_slice(), utc.as_slice()) {
                Some(r) => vstd::slice::slice_to_vec(r),
                None => Vec::new(),
            },
        };
        if o.len() == 0 || crate::text::eq_str(o.as_slice(), "+0") || crate::text::eq_str(o.as_slice(), "+00:00")
            || crate::text::eq_str(o.as_slice(), "-0") {
            return Ok(ZoneSpec::Utc);
        }
        proof {
            reveal_strlit(":");
            reveal_strlit("");
            assert(""@ =~= Seq::<char>::empty());
        }
        let o2 = replace_str(o.as_slice(), ":", "");
        let plus = to_chars("+");
        let minus = to_chars("-");
        let (sign, rest): (i32, &[char]) = match strip_prefix_exec(o2.as_slice(), plus.as_slice()) {
            Some(r) => (1, r),
            None => match strip_prefix_exec(o2.as_slice(), minus.as_slice()) {
                Some(r) => (-1, r),
                None => return Err(invalid("Invalid offset format: ", tz_str)),
            },
        };
        let short = crate::text::byte_len_upto(rest, 2).is_some();
        let (hs, ms): (&[char], Option<&[char]>) = if short {
            (rest, None)
        } else {
            let k = crate::git_file::chars_for_bytes_exec(rest, 2);
            (vstd::slice::slice_subrange(rest, 0, k), Some(vstd::slice::slice_subrange(rest, k, rest.len())))
        };
        assert(ms matches Some(t) ==> t@ =~= offset_parts(rest@).1.unwrap());
        assert(hs@ =~= offset_parts(rest@).0);
        let h = match parse_i32(hs) {
            Some(h) => h,
            None => return Err(invalid("Invalid offset: ", tz_str)),
        };
        let mi: i32 = match ms {
            Some(t) => match parse_i32(t) {
                Some(v) => v,
                None => return Err(invalid("Invalid offset: ", tz_str)),
            },
            None => 0,
        };
        assert(-99 <= h <= 99) by {
            if hs@.len() > 2 {
                crate::text::lemma_byte_len_ge_len(hs@);
                crate::text::lemma_byte_len_take(rest@, chars_for_bytes(rest@, 2) as int);
                assert(false);
            }
            lemma_short_i32(hs@);
        }
        let total = sign * (h * 3600 + mi * 60);
        if fixed_offset_ok(total) {
            Ok(ZoneSpec::Offset(total))
        } else {
            Err(invalid("Invalid offset: ", tz_str))
        }
    } else {
        let name: String = if crate::text::eq_str(upper.as_slice(), "EST") {
            "America/New_York".to_string()
        } else if crate::text::eq_str(upper.as_slice(), "PST") {
            "America/Los_Angeles".to_string()
        } else if crate::text::eq_str(upper.as_slice(), "CST") {
            "America/Chicago".to_string()
        } else if crate::text::eq_str(upper.as_slice(), "MST") {
            "America/Denver".to_string()
        } else if crate::text::eq_str(upper.as_slice(), "JST") {
            "Asia/Tokyo".to_string()
        } else if crate::text::eq_str(upper.as_slice(), "CET") {
            "Europe/Paris".to_string()
        } else {
            tz_str.to_string()
        };
        if is_tz_name(name.as_str()) {
            Ok(ZoneSpec::Named(name))
        } else {
            Err(invalid("Invalid timezone: ", tz_str))
        }
    }
}

/// A number of at most two characters is within -99..=99.
proof fn lemma_short_i32(s: Seq<char>)
    requires
        s.len() <= 2,
    ensures
        parse_i32_spec(s) matches Some(v) ==> -99 <= v <= 99,
{
    reveal_with_fuel(crate::num::digits_value, 3);
    if s.len() == 2 {
        assert(s.skip(1).drop_last() =~= Seq::<char>::empty());
        assert(s.drop_last().drop_last() =~= Seq::<char>::empty());
    }
    if s.len() == 1 {
        assert(s.drop_last() =~= Seq::<char>::empty());
    }
}

/// Whether `parse_timezone` may be called on `tz` (see `parse_timezone_ok`).
pub fn parse_timezone_is_safe(tz_str: &str) -> (r: bool)
    ensures
        r == parse_timezone_ok(tz_str@),
{
    let upper_s = to_upper(tz_str);
    let upper = to_chars(upper_s.as_str());
    if !(starts_with_str(upper.as_slice(), "GMT") || starts_with_str(upper.as_slice(), "UTC")) {
        return true;
    }
    let gmt = to_chars("GMT");
    let utc = to_chars("UTC");
    let o: Vec<char> = match strip_prefix_exec(upper.as_slice(), gmt.as_slice()) {
        Some(r) => vstd::slice::slice_to_vec(r),
        None => match strip_prefix_exec(upper.as_slice(), utc.as_slice()) {
            Some(r) => vstd::slice::slice_to_vec(r),
            None => Vec::new(),
        },
    };
    if o.len() == 0 || crate::text::eq_str(o.as_slice(), "+0") || crate::text::eq_str(o.as_slice(), "+00:00")
        || crate::text::eq_str(o.as_slice(), "-0") {
        return true;
    }
    proof {
        reveal_strlit(":");
        reveal_strlit("");
        assert(""@ =~= Seq::<char>::empty());
    }
    let o2 = replace_str(o.as_slice(), ":", "");
    let plus = to_chars("+");
    let minus = to_chars("-");
    let (sign, rest): (i64, &[char]) = match strip_prefix_exec(o2.as_slice(), plus.as_slice()) {
        Some(r) => (1, r),
        None => match strip_prefix_exec(o2.as_slice(), minus.as_slice()) {
            Some(r) => (-1, r),
            None => return true,
        },
    };
    let short = crate::text::byte_len_upto(rest, 2).is_some();
    let (hs, ms): (&[char], Option<&[char]>) = if short {
        (rest, None)
    } else {
        let k = crate::git_file::chars_for_bytes_exec(rest, 2);
        let b = vstd::slice::slice_subrange(rest, 0, k);
        assert(b@ =~= rest@.take(k as int));
        if crate::text::byte_len_upto(b, 2) != Some(2usize) {
            return false;
        }
        (b, Some(vstd::slice::slice_subrange(rest, k, rest.len())))
    };
    assert(ms matches Some(t) ==> t@ =~= offset_parts(rest@).1.unwrap());
    assert(hs@ =~= offset_parts(rest@).0);
    let h = match parse_i32(hs) {
        Some(h) => h,
        None => return true,
    };
    match ms {
        Some(t) => match parse_i32(t) {
            Some(mi) => {
                let total: i64 = sign * (h as i64 * 3600 + mi as i64 * 60);
                let in_range = |x: i64| -> (b: bool)
                    ensures
                        b == (i32::MIN <= x <= i32::MAX),
                    { i32::MIN as i64 <= x && x <= i32::MAX as i64 };
                in_range(mi as i64 * 60) && in_range(h as i64 * 3600 + mi as i64 * 60) && in_range(total)
            },
            None => true,
        },
        None => true,
    }
}

} // verus!
