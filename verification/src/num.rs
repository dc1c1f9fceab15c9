//! Decimal text for integers: `str::parse` and `to_string` as this library
//! uses them.
use vstd::prelude::*;

verus! {

pub open spec fn is_digit(c: char) -> bool {
    '0' <= c && c <= '9'
}

pub open spec fn digit_value(c: char) -> nat {
    (c as nat - '0' as nat) as nat
}

/// The lowercase hexadecimal digit of `d` (below 16).
pub open spec fn hex_digit(d: nat) -> char {
    if d < 10 {
        ((d + 48) as u32) as char
    } else {
        ((d + 87) as u32) as char
    }
}

pub open spec fn all_digits(s: Seq<char>) -> bool {
    forall|i: int| 0 <= i < s.len() ==> is_digit(#[trigger] s[i])
}

/// The number that the decimal digits `s` spell (0 for the empty sequence).
pub open spec fn digits_value(s: Seq<char>) -> nat
    decreases s.len(),
{
    if s.len() == 0 {
        0
    } else {
        digits_value(s.drop_last()) * 10 + digit_value(s.last())
    }
}

/// The digits after an optional leading `+`, as `str::parse` for an unsigned
/// integer reads them (a lone `+` is not stripped and so is rejected).
pub open spec fn unsigned_digits(s: Seq<char>) -> Seq<char> {
    if s.len() > 1 && s[0] == '+' {
        s.skip(1)
    } else {
        s
    }
}

/// `s.parse::<u64>()`.
pub open spec fn parse_u64_spec(s: Seq<char>) -> Option<u64> {
    let d = unsigned_digits(s);
    if d.len() > 0 && all_digits(d) && digits_value(d) <= u64::MAX {
        Some(digits_value(d) as u64)
    } else {
        None
    }
}

/// `s.parse::<i32>()`: an optional sign, then decimal digits, within range.
pub open spec fn parse_i32_spec(s: Seq<char>) -> Option<i32> {
    if s.len() > 1 && s[0] == '-' {
        let d = s.skip(1);
        if all_digits(d) && digits_value(d) <= 0x8000_0000 {
            Some((0 - digits_value(d)) as i32)
        } else {
            None
        }
    } else {
        let d = unsigned_digits(s);
        if d.len() > 0 && all_digits(d) && digits_value(d) <= i32::MAX {
            Some(digits_value(d) as i32)
        } else {
            None
        }
    }
}

proof fn lemma_digits_value_push(s: Seq<char>, c: char)
    ensures
        digits_value(s.push(c)) == digits_value(s) * 10 + digit_value(c),
{
    assert(s.push(c).drop_last() =~= s);
}

/// Reads decimal digits with overflow checking; `None` on a non-digit,
/// on an empty input, or when the value exceeds `u64::MAX`.
fn parse_digits(d: &[char]) -> (r: Option<u64>)
    ensures
        r matches Some(v) ==> d@.len() > 0 && all_digits(d@) && v == digits_value(d@),
        r is None ==> !(d@.len() > 0 && all_digits(d@) && digits_value(d@) <= u64::MAX),
{
    if d.len() == 0 {
        return None;
    }
    let mut v: u64 = 0;
    let mut i: usize = 0;
    while i < d.len()
        invariant
            i <= d@.len(),
            all_digits(d@.take(i as int)),
            v == digits_value(d@.take(i as int)),
        decreases d@.len() - i,
    {
        let c = d[i];
        if !('0' <= c && c <= '9') {
            assert(!is_digit(d@[i as int]));
            return None;
        }
        let dv: u64 = (c as u32 - '0' as u32) as u64;
        proof {
            lemma_digits_value_push(d@.take(i as int), c);
            assert(d@.take(i + 1) =~= d@.take(i as int).push(c));
        }
        if v > (u64::MAX - dv) / 10 {
            proof {
                lemma_digits_value_monotone(d@, i as int + 1);
            }
            return None;
        }
        v = v * 10 + dv;
        i += 1;
    }
    assert(d@.take(d@.len() as int) == d@);
    Some(v)
}

/// A prefix's value never exceeds the value of the whole digit string.
proof fn lemma_digits_value_monotone(d: Seq<char>, k: int)
    requires
        0 <= k <= d.len(),
        all_digits(d.take(k)),
    ensures
        all_digits(d) ==> digits_value(d.take(k)) <= digits_value(d),
    decreases d.len() - k,
{
    if k < d.len() && all_digits(d) {
        assert(all_digits(d.take(k + 1)));
        lemma_digits_value_monotone(d, k + 1);
        lemma_digits_value_push(d.take(k), d[k]);
        assert(d.take(k + 1) =~= d.take(k).push(d[k]));
    }
    if k == d.len() {
        assert(d.take(k) =~= d);
    }
}

/// `s.parse::<u64>().ok()`.
pub fn parse_u64(s: &[char]) -> (r: Option<u64>)
    ensures
        r == parse_u64_spec(s@),
{
    if s.len() > 1 && s[0] == '+' {
        let d = vstd::slice::slice_subrange(s, 1, s.len());
        assert(d@ =~= s@.skip(1));
        parse_digits(d)
    } else {
        parse_digits(s)
    }
}

/// `s.parse::<i32>().ok()`.
pub fn parse_i32(s: &[char]) -> (r: Option<i32>)
    ensures
        r == parse_i32_spec(s@),
{
    if s.len() > 1 && s[0] == '-' {
        let d = vstd::slice::slice_subrange(s, 1, s.len());
        assert(d@ =~= s@.skip(1));
        match parse_digits(d) {
            Some(v) => {
                if v <= 0x8000_0000 {
                    let n: i64 = 0i64 - (v as i64);
                    Some(n as i32)
                } else {
                    None
                }
            },
            None => None,
        }
    } else {
        let d: &[char] = if s.len() > 1 && s[0] == '+' {
            vstd::slice::slice_subrange(s, 1, s.len())
        } else {
            s
        };
        assert(d@ =~= unsigned_digits(s@));
        match parse_digits(d) {
            Some(v) => {
                if v <= 0x7fff_ffff {
                    Some(v as i32)
                } else {
                    None
                }
            },
            None => None,
        }
    }
}

/// The decimal digits of `n`, most significant first, with no leading zeros
/// (`"0"` for zero): what `to_string` and `format!("{}")` print.
pub open spec fn decimal(n: nat) -> Seq<char>
    decreases n,
{
    if n < 10 {
        seq![digit_char(n)]
    } else {
        decimal(n / 10).push(digit_char(n % 10))
    }
}

pub open spec fn digit_char(d: nat) -> char {
    ((d + '0' as nat) as u32) as char
}

/// `n.to_string()` as characters.
pub fn decimal_exec(n: u64) -> (r: Vec<char>)
    ensures
        r@ == decimal(n as nat),
    decreases n,
{
    if n < 10 {
        let c: char = digit(n);
        let mut v: Vec<char> = Vec::new();
        v.push(c);
        v
    } else {
        let mut v = decimal_exec(n / 10);
        v.push(digit(n % 10));
        v
    }
}

fn digit(d: u64) -> (c: char)
    requires
        d < 10,
    ensures
        c == digit_char(d as nat),
{
    let b: u8 = 48u8 + (d as u8);
    b as char
}


proof fn lemma_digit_char(k: nat)
    requires
        k < 10,
    ensures
        is_digit(digit_char(k)),
        digit_value(digit_char(k)) == k,
{
    let c = digit_char(k);
    assert((c as u32) == k + 48);
}

/// The decimal text of a number is all digits, never empty, and spells the
/// number back.
pub proof fn lemma_decimal_digits(n: nat)
    ensures
        decimal(n).len() > 0,
        all_digits(decimal(n)),
        digits_value(decimal(n)) == n,
    decreases n,
{
    lemma_digit_char(n % 10);
    if n < 10 {
        assert(seq![digit_char(n)].drop_last() =~= Seq::<char>::empty());
        assert(digits_value(seq![digit_char(n)]) == digits_value(Seq::<char>::empty()) * 10 + digit_value(digit_char(n)));
    } else {
        lemma_decimal_digits(n / 10);
        let d = decimal(n / 10);
        lemma_digits_value_push(d, digit_char(n % 10));
        assert(all_digits(d.push(digit_char(n % 10))));
        assert((n / 10) * 10 + n % 10 == n) by (nonlinear_arith);
    }
}

/// Reading back the decimal text of a `u64` gives the number.
pub proof fn lemma_parse_decimal(n: u64)
    ensures
        parse_u64_spec(decimal(n as nat)) == Some(n),
{
    lemma_decimal_digits(n as nat);
    assert(is_digit(decimal(n as nat)[0]));
    assert(unsigned_digits(decimal(n as nat)) == decimal(n as nat));
}

pub open spec fn pow10(k: nat) -> nat
    decreases k,
{
    if k == 0 {
        1
    } else {
        10 * pow10((k - 1) as nat)
    }
}

/// A number below `10^k` (with `k > 0`) has at most `k` digits.
pub proof fn lemma_decimal_len(n: nat, k: nat)
    requires
        k > 0,
        n < pow10(k),
    ensures
        decimal(n).len() <= k,
    decreases n,
{
    if n >= 10 {
        let p = pow10((k - 1) as nat);
        assert(k > 1) by {
            if k == 1 {
                assert(pow10(0) == 1);
            }
        }
        assert(n / 10 < p) by (nonlinear_arith)
            requires
                n < 10 * p,
        ;
        lemma_decimal_len(n / 10, (k - 1) as nat);
    }
}

/// A `u64` has at most twenty digits.
pub proof fn lemma_decimal_len_u64(n: u64)
    ensures
        decimal(n as nat).len() <= 20,
{
    reveal_with_fuel(pow10, 21);
    assert(pow10(20) == 100000000000000000000nat);
    lemma_decimal_len(n as nat, 20);
}

/// Distinct numbers have distinct decimal texts.
pub proof fn lemma_decimal_injective(a: u64, b: u64)
    requires
        a != b,
    ensures
        decimal(a as nat) != decimal(b as nat),
{
    lemma_parse_decimal(a);
    lemma_parse_decimal(b);
}

/// Text that holds a character other than a digit and `+` is no `u64`.
pub proof fn lemma_parse_needs_digits(s: Seq<char>, i: int)
    requires
        0 <= i < s.len(),
        !is_digit(s[i]),
        s[i] != '+',
    ensures
        parse_u64_spec(s) is None,
{
    let d = unsigned_digits(s);
    if d.len() > 0 && all_digits(d) {
        if s.len() > 1 && s[0] == '+' {
            assert(d[i - 1] == s[i]);
        } else {
            assert(d[i] == s[i]);
        }
    }
}

}
