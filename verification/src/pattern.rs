//! The regular-expression and percent-encoding calls that URL recognition
//! makes.
use vstd::prelude::*;

verus! {

/// The capture groups of the leftmost match of `pattern` in `text`, group 0
/// first (a group that took no part in the match is `None`); `None` when
/// `pattern` does not compile or does not match. This is what the `regex`
/// crate computes; its matching rules are not restated here.
pub uninterp spec fn regex_captures(pattern: Seq<char>, text: Seq<char>) -> Option<Seq<Option<Seq<char>>>>;

pub open spec fn groups_view(v: Seq<Option<String>>) -> Seq<Option<Seq<char>>> {
    v.map_values(|g: Option<String>| match g {
        Some(s) => Some(s@),
        None => None,
    })
}

/// Compiles `pattern` with `regex::Regex::new` and runs
/// `Regex::captures` on `text`, returning each group's text. The contract
/// ties the result to `regex_captures` and claims nothing else.
#[verifier::external_body]
pub(crate) fn captures(pattern: &str, text: &str) -> (r: Option<Vec<Option<String>>>)
    ensures
        match r {
            Some(v) => regex_captures(pattern@, text@) == Some(groups_view(v@)),
            None => regex_captures(pattern@, text@) is None,
        },
{
    let re = regex::Regex::new(pattern).ok()?;
    let caps = re.captures(text)?;
    Some(caps.iter().map(|g| g.map(|m| m.as_str().to_string())).collect())
}

/// Group `i` of a capture result, when the match has it.
pub open spec fn group(caps: Seq<Option<Seq<char>>>, i: int) -> Option<Seq<char>> {
    if 0 <= i < caps.len() {
        caps[i]
    } else {
        None
    }
}

/// `captures.get(i)` as text.
pub fn group_exec(caps: &Vec<Option<String>>, i: usize) -> (r: Option<Vec<char>>)
    ensures
        match r {
            Some(g) => group(groups_view(caps@), i as int) == Some(g@),
            None => group(groups_view(caps@), i as int) is None,
        },
{
    if i < caps.len() {
        match &caps[i] {
            Some(s) => Some(crate::text::to_chars(s.as_str())),
            None => None,
        }
    } else {
        None
    }
}

/// A byte that percent-encoding leaves as it is: ASCII letters and digits
/// and `-`, `.`, `_`, `~`.
pub open spec fn url_safe_byte(b: u8) -> bool {
    (48 <= b <= 57) || (65 <= b <= 90) || (97 <= b <= 122) || b == 45 || b == 46 || b == 95 || b == 126
}

pub open spec fn hex_upper(d: u8) -> char {
    if d < 10 {
        ((48 + d) as u8) as char
    } else {
        ((55 + d) as u8) as char
    }
}

/// Percent-encoding of a byte sequence: safe bytes as themselves, every
/// other byte as `%` and two upper-case hexadecimal digits.
pub open spec fn percent_encode_bytes(bytes: Seq<u8>) -> Seq<char>
    decreases bytes.len(),
{
    if bytes.len() == 0 {
        seq![]
    } else {
        let b = bytes[0];
        let head = if url_safe_byte(b) {
            seq![b as char]
        } else {
            seq!['%', hex_upper(b / 16), hex_upper(b % 16)]
        };
        head + percent_encode_bytes(bytes.drop_first())
    }
}

/// `urlencoding::encode`: every byte of the UTF-8 text percent-encoded
/// except ASCII letters, digits and `-`, `_`, `.`, `~`, as the crate's
/// documentation states (the upper-case hexadecimal digits are what its
/// source writes).
#[verifier::external_body]
pub(crate) fn url_encode(s: &str) -> (r: String)
    ensures
        r@ == percent_encode_bytes(vstd::utf8::encode_utf8(s@)),
{
    urlencoding::encode(s).into_owned()
}

}
