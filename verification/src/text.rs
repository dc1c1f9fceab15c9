//! Character-sequence primitives that the rest of the library is written in.
//!
//! Text is modelled as `Seq<char>`; the executable functions work on slices
//! of `char` and are proved against the spec functions here.
use vstd::prelude::*;

verus! {

/// `p` occurs in `s` starting at index `i`.
pub open spec fn matches_at(s: Seq<char>, p: Seq<char>, i: int) -> bool {
    0 <= i && i + p.len() <= s.len() && s.subrange(i, i + p.len()) == p
}

pub open spec fn starts_with(s: Seq<char>, p: Seq<char>) -> bool {
    matches_at(s, p, 0)
}

pub open spec fn ends_with(s: Seq<char>, p: Seq<char>) -> bool {
    p.len() <= s.len() && matches_at(s, p, s.len() - p.len())
}

pub open spec fn contains(s: Seq<char>, p: Seq<char>) -> bool {
    exists|i: int| #[trigger] matches_at(s, p, i)
}

/// Index of the first occurrence of `p` in `s` at or after `start`.
pub open spec fn find_from(s: Seq<char>, p: Seq<char>, start: int) -> Option<int>
    decreases s.len() + 1 - start,
{
    if start < 0 || start + p.len() > s.len() {
        None
    } else if matches_at(s, p, start) {
        Some(start)
    } else {
        find_from(s, p, start + 1)
    }
}

/// Index of the first occurrence of `p` in `s`.
pub open spec fn find(s: Seq<char>, p: Seq<char>) -> Option<int> {
    find_from(s, p, 0)
}

/// Index of the last occurrence of `p` in `s` that starts at or before `k`.
pub open spec fn rfind_upto(s: Seq<char>, p: Seq<char>, k: int) -> Option<int>
    decreases k + 1,
{
    if k < 0 {
        None
    } else if matches_at(s, p, k) {
        Some(k)
    } else {
        rfind_upto(s, p, k - 1)
    }
}

/// Index of the last occurrence of `p` in `s`.
pub open spec fn rfind(s: Seq<char>, p: Seq<char>) -> Option<int> {
    rfind_upto(s, p, s.len() - p.len())
}

pub proof fn lemma_find_from(s: Seq<char>, p: Seq<char>, start: int)
    requires
        0 <= start,
    ensures
        match find_from(s, p, start) {
            Some(i) => start <= i && matches_at(s, p, i) && forall|j: int|
                start <= j < i ==> !#[trigger] matches_at(s, p, j),
            None => forall|j: int| start <= j ==> !#[trigger] matches_at(s, p, j),
        },
    decreases s.len() + 1 - start,
{
    if start + p.len() > s.len() {
    } else if matches_at(s, p, start) {
    } else {
        lemma_find_from(s, p, start + 1);
    }
}

pub proof fn lemma_find(s: Seq<char>, p: Seq<char>)
    ensures
        match find(s, p) {
            Some(i) => 0 <= i && matches_at(s, p, i) && forall|j: int|
                0 <= j < i ==> !#[trigger] matches_at(s, p, j),
            None => !contains(s, p),
        },
{
    lemma_find_from(s, p, 0);
}

pub proof fn lemma_rfind_upto(s: Seq<char>, p: Seq<char>, k: int)
    ensures
        match rfind_upto(s, p, k) {
            Some(i) => 0 <= i <= k && matches_at(s, p, i) && forall|j: int|
                i < j <= k ==> !#[trigger] matches_at(s, p, j),
            None => forall|j: int| j <= k ==> !#[trigger] matches_at(s, p, j),
        },
    decreases k + 1,
{
    if k >= 0 && !matches_at(s, p, k) {
        lemma_rfind_upto(s, p, k - 1);
    }
}

pub proof fn lemma_rfind(s: Seq<char>, p: Seq<char>)
    ensures
        match rfind(s, p) {
            Some(i) => 0 <= i && matches_at(s, p, i) && forall|j: int|
                i < j ==> !#[trigger] matches_at(s, p, j),
            None => !contains(s, p),
        },
{
    lemma_rfind_upto(s, p, s.len() - p.len());
}

pub open spec fn ascii_lower_char(c: char) -> char {
    if 'A' <= c && c <= 'Z' {
        ((c as u32) + 32) as char
    } else {
        c
    }
}

/// `to_ascii_lowercase` on a whole sequence.
pub open spec fn lower(s: Seq<char>) -> Seq<char> {
    s.map_values(|c: char| ascii_lower_char(c))
}

/// The characters of a string slice, in order.
pub fn to_chars(s: &str) -> (r: Vec<char>)
    ensures
        r@ == s@,
{
    let mut r: Vec<char> = Vec::new();
    for c in it: s.chars()
        invariant
            r@ == it.seq().take(it.index() as int),
            it.seq() == s@,
    {
        r.push(c);
    }
    r
}

/// Appends one character to a string (`String::push`).
#[verifier::external_body]
pub(crate) fn push_char(s: &mut String, c: char)
    ensures
        final(s)@ == old(s)@.push(c),
{
    s.push(c);
}

/// The string whose characters are `v`.
pub fn from_chars(v: &[char]) -> (r: String)
    ensures
        r@ == v@,
{
    let mut r = String::new();
    let mut i: usize = 0;
    while i < v.len()
        invariant
            i <= v@.len(),
            r@ == v@.take(i as int),
        decreases v@.len() - i,
    {
        push_char(&mut r, v[i]);
        assert(v@.take(i + 1) == v@.take(i as int).push(v@[i as int]));
        i += 1;
    }
    assert(v@.take(v@.len() as int) == v@);
    r
}

/// Whether `p` occurs in `s` at index `i`.
pub fn matches_at_exec(s: &[char], p: &[char], i: usize) -> (r: bool)
    ensures
        r == matches_at(s@, p@, i as int),
{
    if i > s.len() || p.len() > s.len() - i {
        return false;
    }
    let end: usize = i + p.len();
    let mut k: usize = 0;
    while k < p.len()
        invariant
            end == i + p@.len(),
            end <= s@.len(),
            k <= p@.len(),
            forall|j: int| 0 <= j < k ==> s@[i + j] == p@[j],
        decreases p@.len() - k,
    {
        if s[i + k] != p[k] {
            assert(s@.subrange(i as int, i + p@.len())[k as int] != p@[k as int]);
            return false;
        }
        k += 1;
    }
    assert(s@.subrange(i as int, i + p@.len()) =~= p@);
    true
}

pub fn starts_with_exec(s: &[char], p: &[char]) -> (r: bool)
    ensures
        r == starts_with(s@, p@),
{
    matches_at_exec(s, p, 0)
}

pub fn ends_with_exec(s: &[char], p: &[char]) -> (r: bool)
    ensures
        r == ends_with(s@, p@),
{
    if p.len() > s.len() {
        false
    } else {
        matches_at_exec(s, p, s.len() - p.len())
    }
}

/// First occurrence of `p` in `s`.
pub fn find_exec(s: &[char], p: &[char]) -> (r: Option<usize>)
    ensures
        r matches Some(i) ==> find(s@, p@) == Some(i as int),
        r is None ==> find(s@, p@) is None,
{
    if p.len() > s.len() {
        return None;
    }
    let last = s.len() - p.len();
    let mut i: usize = 0;
    while i <= last
        invariant
            last + p@.len() == s@.len(),
            i <= last + 1,
            find(s@, p@) == find_from(s@, p@, i as int),
        decreases last + 1 - i,
    {
        if matches_at_exec(s, p, i) {
            return Some(i);
        }
        if i == last {
            assert(find_from(s@, p@, i + 1) is None);
            return None;
        }
        i += 1;
    }
    None
}

/// Last occurrence of `p` in `s`.
pub fn rfind_exec(s: &[char], p: &[char]) -> (r: Option<usize>)
    ensures
        r matches Some(i) ==> rfind(s@, p@) == Some(i as int),
        r is None ==> rfind(s@, p@) is None,
{
    if p.len() > s.len() {
        return None;
    }
    let mut k: usize = s.len() - p.len();
    loop
        invariant
            k + p@.len() <= s@.len(),
            rfind(s@, p@) == rfind_upto(s@, p@, k as int),
        decreases k,
    {
        if matches_at_exec(s, p, k) {
            return Some(k);
        }
        if k == 0 {
            assert(rfind_upto(s@, p@, -1) is None);
            return None;
        }
        k -= 1;
    }
}

pub fn contains_exec(s: &[char], p: &[char]) -> (r: bool)
    ensures
        r == contains(s@, p@),
{
    proof {
        lemma_find(s@, p@);
    }
    match find_exec(s, p) {
        Some(i) => {
            assert(matches_at(s@, p@, i as int));
            true
        },
        None => false,
    }
}

/// ASCII lowercase of every character.
pub fn lower_exec(s: &[char]) -> (r: Vec<char>)
    ensures
        r@ == lower(s@),
{
    let mut r: Vec<char> = Vec::new();
    let mut i: usize = 0;
    while i < s.len()
        invariant
            i <= s@.len(),
            r@ == lower(s@.take(i as int)),
        decreases s@.len() - i,
    {
        let c = s[i];
        let l = if 'A' <= c && c <= 'Z' {
            char_from_u32_ascii((c as u32) + 32)
        } else {
            c
        };
        r.push(l);
        assert(lower(s@.take(i + 1)) =~= lower(s@.take(i as int)).push(ascii_lower_char(c)));
        i += 1;
    }
    assert(s@.take(s@.len() as int) == s@);
    r
}

/// The ASCII character with code `u` (`char::from_u32` on an ASCII code).
fn char_from_u32_ascii(u: u32) -> (c: char)
    requires
        u < 128,
    ensures
        c == u as char,
{
    let b: u8 = u as u8;
    b as char
}


/// The text before the first occurrence of `p` (all of `s` when `p` does
/// not occur): what `s.split(p).next()` gives.
pub open spec fn before_first(s: Seq<char>, p: Seq<char>) -> Seq<char> {
    match find(s, p) {
        Some(i) => s.take(i),
        None => s,
    }
}

/// The text after the last occurrence of `p` (all of `s` when `p` does not
/// occur): what `s.rsplit(p).next()` gives.
pub open spec fn after_last(s: Seq<char>, p: Seq<char>) -> Seq<char> {
    match rfind(s, p) {
        Some(i) => s.skip(i + p.len()),
        None => s,
    }
}

/// `s.split_once(p)`.
pub open spec fn split_once(s: Seq<char>, p: Seq<char>) -> Option<(Seq<char>, Seq<char>)> {
    match find(s, p) {
        Some(i) => Some((s.take(i), s.skip(i + p.len()))),
        None => None,
    }
}

/// `s.rsplit_once(p)`.
pub open spec fn rsplit_once(s: Seq<char>, p: Seq<char>) -> Option<(Seq<char>, Seq<char>)> {
    match rfind(s, p) {
        Some(i) => Some((s.take(i), s.skip(i + p.len()))),
        None => None,
    }
}

/// `s.trim_start_matches(p)` for a string pattern: every leading copy of
/// `p` removed.
pub open spec fn trim_start_str(s: Seq<char>, p: Seq<char>) -> Seq<char>
    decreases s.len(),
{
    if p.len() == 0 || !starts_with(s, p) {
        s
    } else {
        trim_start_str(s.skip(p.len() as int), p)
    }
}

/// `s.trim_end_matches(p)` for a string pattern.
pub open spec fn trim_end_str(s: Seq<char>, p: Seq<char>) -> Seq<char>
    decreases s.len(),
{
    if p.len() == 0 || !ends_with(s, p) {
        s
    } else {
        trim_end_str(s.take(s.len() - p.len()), p)
    }
}

/// `s.strip_prefix(p)`.
pub open spec fn strip_prefix(s: Seq<char>, p: Seq<char>) -> Option<Seq<char>> {
    if starts_with(s, p) {
        Some(s.skip(p.len() as int))
    } else {
        None
    }
}

/// `char::is_whitespace`: the Unicode `White_Space` property.
pub open spec fn is_ws(c: char) -> bool {
    let u = c as u32;
    (0x9 <= u && u <= 0xD) || u == 0x20 || u == 0x85 || u == 0xA0 || u == 0x1680 || (0x2000 <= u
        && u <= 0x200A) || u == 0x2028 || u == 0x2029 || u == 0x202F || u == 0x205F || u == 0x3000
}

/// Leading characters that satisfy `f`, removed.
pub open spec fn skip_while(s: Seq<char>, f: spec_fn(char) -> bool) -> Seq<char>
    decreases s.len(),
{
    if s.len() > 0 && f(s[0]) {
        skip_while(s.skip(1), f)
    } else {
        s
    }
}

/// Trailing characters that satisfy `f`, removed.
pub open spec fn drop_while_end(s: Seq<char>, f: spec_fn(char) -> bool) -> Seq<char>
    decreases s.len(),
{
    if s.len() > 0 && f(s.last()) {
        drop_while_end(s.drop_last(), f)
    } else {
        s
    }
}

pub open spec fn ws_pred() -> spec_fn(char) -> bool {
    |c: char| is_ws(c)
}

/// `str::trim`.
pub open spec fn trim(s: Seq<char>) -> Seq<char> {
    drop_while_end(skip_while(s, ws_pred()), ws_pred())
}

pub fn is_ws_exec(c: char) -> (r: bool)
    ensures
        r == is_ws(c),
{
    let u = c as u32;
    (0x9 <= u && u <= 0xD) || u == 0x20 || u == 0x85 || u == 0xA0 || u == 0x1680 || (0x2000 <= u
        && u <= 0x200A) || u == 0x2028 || u == 0x2029 || u == 0x202F || u == 0x205F || u == 0x3000
}

/// `s.split(p).next()`.
pub fn before_first_exec<'a>(s: &'a [char], p: &[char]) -> (r: &'a [char])
    ensures
        r@ == before_first(s@, p@),
{
    match find_exec(s, p) {
        Some(i) => {
            proof {
                lemma_find(s@, p@);
            }
            vstd::slice::slice_subrange(s, 0, i)
        },
        None => s,
    }
}

/// `s.rsplit(p).next()`.
pub fn after_last_exec<'a>(s: &'a [char], p: &[char]) -> (r: &'a [char])
    ensures
        r@ == after_last(s@, p@),
{
    match rfind_exec(s, p) {
        Some(i) => {
            let n = s.len();
            proof {
                lemma_rfind(s@, p@);
            }
            assert(i + p@.len() <= n);
            vstd::slice::slice_subrange(s, i + p.len(), n)
        },
        None => s,
    }
}

/// `s.split_once(p)`.
pub fn split_once_exec<'a>(s: &'a [char], p: &[char]) -> (r: Option<(&'a [char], &'a [char])>)
    ensures
        match r {
            Some((a, b)) => split_once(s@, p@) == Some((a@, b@)),
            None => split_once(s@, p@) is None,
        },
{
    match find_exec(s, p) {
        Some(i) => {
            let n = s.len();
            proof {
                lemma_find(s@, p@);
            }
            assert(i + p@.len() <= n);
            Some((vstd::slice::slice_subrange(s, 0, i), vstd::slice::slice_subrange(s, i + p.len(), n)))
        },
        None => None,
    }
}

/// `s.rsplit_once(p)`.
pub fn rsplit_once_exec<'a>(s: &'a [char], p: &[char]) -> (r: Option<(&'a [char], &'a [char])>)
    ensures
        match r {
            Some((a, b)) => rsplit_once(s@, p@) == Some((a@, b@)),
            None => rsplit_once(s@, p@) is None,
        },
{
    match rfind_exec(s, p) {
        Some(i) => {
            let n = s.len();
            proof {
                lemma_rfind(s@, p@);
            }
            assert(i + p@.len() <= n);
            Some((vstd::slice::slice_subrange(s, 0, i), vstd::slice::slice_subrange(s, i + p.len(), n)))
        },
        None => None,
    }
}

/// `s.strip_prefix(p)`.
pub fn strip_prefix_exec<'a>(s: &'a [char], p: &[char]) -> (r: Option<&'a [char]>)
    ensures
        match r {
            Some(a) => strip_prefix(s@, p@) == Some(a@),
            None => strip_prefix(s@, p@) is None,
        },
{
    if starts_with_exec(s, p) {
        Some(vstd::slice::slice_subrange(s, p.len(), s.len()))
    } else {
        None
    }
}

/// `s.trim_start_matches(p)`.
pub fn trim_start_str_exec<'a>(s: &'a [char], p: &[char]) -> (r: &'a [char])
    ensures
        r@ == trim_start_str(s@, p@),
{
    let mut cur: &[char] = s;
    if p.len() == 0 {
        return s;
    }
    while starts_with_exec(cur, p)
        invariant
            p@.len() > 0,
            trim_start_str(cur@, p@) == trim_start_str(s@, p@),
        decreases cur@.len(),
    {
        cur = vstd::slice::slice_subrange(cur, p.len(), cur.len());
    }
    cur
}

/// `s.trim_end_matches(p)`.
pub fn trim_end_str_exec<'a>(s: &'a [char], p: &[char]) -> (r: &'a [char])
    ensures
        r@ == trim_end_str(s@, p@),
{
    let mut cur: &[char] = s;
    if p.len() == 0 {
        return s;
    }
    while ends_with_exec(cur, p)
        invariant
            p@.len() > 0,
            trim_end_str(cur@, p@) == trim_end_str(s@, p@),
        decreases cur@.len(),
    {
        cur = vstd::slice::slice_subrange(cur, 0, cur.len() - p.len());
    }
    cur
}

/// `s.trim()`.
pub fn trim_exec(s: &[char]) -> (r: &[char])
    ensures
        r@ == trim(s@),
{
    let mut a: usize = 0;
    assert(s@.skip(0) =~= s@);
    while a < s.len() && is_ws_exec(s[a])
        invariant
            a <= s@.len(),
            skip_while(s@.skip(a as int), ws_pred()) == skip_while(s@, ws_pred()),
        decreases s@.len() - a,
    {
        assert(s@.skip(a as int).skip(1) =~= s@.skip(a + 1));
        a += 1;
    }
    assert(skip_while(s@.skip(a as int), ws_pred()) == s@.skip(a as int));
    let mut b: usize = s.len();
    while b > a && is_ws_exec(s[b - 1])
        invariant
            a <= b <= s@.len(),
            drop_while_end(s@.subrange(a as int, b as int), ws_pred()) == trim(s@),
        decreases b,
    {
        assert(s@.subrange(a as int, b as int).drop_last() =~= s@.subrange(a as int, b - 1));
        b -= 1;
    }
    vstd::slice::slice_subrange(s, a, b)
}


/// What `char::is_alphanumeric` returns for `c` (the Unicode `Alphabetic`
/// or `Numeric` property).
pub uninterp spec fn char_is_alphanumeric(c: char) -> bool;

pub open spec fn is_ascii_alnum(c: char) -> bool {
    ('a' <= c && c <= 'z') || ('A' <= c && c <= 'Z') || ('0' <= c && c <= '9')
}

/// `char::is_alphanumeric`. Its result is named; for ASCII characters the
/// documentation's definition reduces to the ASCII letters and digits, and
/// that is stated here too.
#[verifier::external_body]
pub(crate) fn is_alphanumeric(c: char) -> (r: bool)
    ensures
        r == char_is_alphanumeric(c),
        (c as u32) < 128 ==> (r <==> is_ascii_alnum(c)),
{
    c.is_alphanumeric()
}

/// The concatenation of `a` and `b`, as a new vector.
pub fn concat2(a: &[char], b: &[char]) -> (r: Vec<char>)
    ensures
        r@ == a@ + b@,
{
    let mut r = vstd::slice::slice_to_vec(a);
    let mut i: usize = 0;
    while i < b.len()
        invariant
            i <= b@.len(),
            r@ == a@ + b@.take(i as int),
        decreases b@.len() - i,
    {
        r.push(b[i]);
        assert(a@ + b@.take(i + 1) =~= (a@ + b@.take(i as int)).push(b@[i as int]));
        i += 1;
    }
    assert(b@.take(b@.len() as int) =~= b@);
    r
}

/// Appends `b` to `r`.
pub fn append(r: &mut Vec<char>, b: &[char])
    ensures
        final(r)@ == old(r)@ + b@,
{
    let ghost r0 = r@;
    let mut i: usize = 0;
    while i < b.len()
        invariant
            i <= b@.len(),
            r@ == r0 + b@.take(i as int),
        decreases b@.len() - i,
    {
        r.push(b[i]);
        assert(r0 + b@.take(i + 1) =~= (r0 + b@.take(i as int)).push(b@[i as int]));
        i += 1;
    }
    assert(b@.take(b@.len() as int) =~= b@);
}

/// Appends the characters of `b` to `r`.
pub fn append_str(r: &mut Vec<char>, b: &str)
    ensures
        final(r)@ == old(r)@ + b@,
{
    let v = to_chars(b);
    append(r, v.as_slice());
}

/// Element-wise equality of two character slices.
pub fn eq_exec(a: &[char], b: &[char]) -> (r: bool)
    ensures
        r == (a@ == b@),
{
    if a.len() != b.len() {
        return false;
    }
    let r = matches_at_exec(a, b, 0);
    proof {
        if r {
            assert(a@.subrange(0, b@.len() as int) =~= a@);
        } else {
            assert(a@.subrange(0, b@.len() as int) =~= a@);
        }
    }
    r
}


/// The views of a sequence of character vectors.
pub open spec fn vv(v: Seq<Vec<char>>) -> Seq<Seq<char>> {
    v.map_values(|x: Vec<char>| x@)
}

/// `s.split(p)` for a non-empty pattern: the pieces between occurrences.
pub open spec fn split_seq(s: Seq<char>, p: Seq<char>) -> Seq<Seq<char>>
    decreases s.len(),
{
    if p.len() == 0 {
        seq![s]
    } else {
        match find(s, p) {
            None => seq![s],
            Some(i) => if 0 <= i && i + p.len() <= s.len() {
                seq![s.take(i)] + split_seq(s.skip(i + p.len()), p)
            } else {
                seq![s]
            },
        }
    }
}

/// One trailing `\r` removed.
pub open spec fn strip_cr(s: Seq<char>) -> Seq<char> {
    if s.len() > 0 && s.last() == '\r' {
        s.drop_last()
    } else {
        s
    }
}

/// `str::lines`: pieces ended by `\n` (one `\r` before it dropped), and a
/// last piece without a line ending if one remains.
pub open spec fn lines(s: Seq<char>) -> Seq<Seq<char>>
    decreases s.len(),
{
    if s.len() == 0 {
        seq![]
    } else {
        match find(s, seq!['\n']) {
            None => seq![s],
            Some(i) => if 0 <= i < s.len() {
                seq![strip_cr(s.take(i))] + lines(s.skip(i + 1))
            } else {
                seq![s]
            },
        }
    }
}

/// The pieces joined with `sep` between them.
pub open spec fn join(parts: Seq<Seq<char>>, sep: Seq<char>) -> Seq<char>
    decreases parts.len(),
{
    if parts.len() == 0 {
        seq![]
    } else if parts.len() == 1 {
        parts[0]
    } else {
        join(parts.drop_last(), sep) + sep + parts.last()
    }
}

pub proof fn lemma_vv_push(v: Seq<Vec<char>>, x: Vec<char>)
    ensures
        vv(v.push(x)) == vv(v).push(x@),
{
    assert(vv(v.push(x)) =~= vv(v).push(x@));
}

/// `s.split(p)` collected.
pub fn split_exec(s: &[char], p: &[char]) -> (r: Vec<Vec<char>>)
    requires
        p@.len() > 0,
    ensures
        vv(r@) == split_seq(s@, p@),
{
    let mut out: Vec<Vec<char>> = Vec::new();
    let mut cur: &[char] = s;
    loop
        invariant
            p@.len() > 0,
            vv(out@) + split_seq(cur@, p@) == split_seq(s@, p@),
        decreases cur@.len(),
    {
        proof {
            lemma_find(cur@, p@);
        }
        match find_exec(cur, p) {
            None => {
                let ghost before = vv(out@);
                let piece = vstd::slice::slice_to_vec(cur);
                out.push(piece);
                proof {
                    lemma_vv_push(out@.drop_last(), piece);
                    assert(out@.drop_last() =~= old_out_helper(out@));
                }
                assert(vv(out@) =~= before + seq![cur@]);
                return out;
            },
            Some(i) => {
                let n = cur.len();
                assert(i + p@.len() <= n);
                let ghost before = vv(out@);
                let piece = vstd::slice::slice_to_vec(vstd::slice::slice_subrange(cur, 0, i));
                out.push(piece);
                assert(vv(out@) =~= before.push(cur@.take(i as int)));
                let next = vstd::slice::slice_subrange(cur, i + p.len(), n);
                assert(next@ =~= cur@.skip(i + p@.len()));
                assert(before + split_seq(cur@, p@) =~= vv(out@) + split_seq(next@, p@));
                cur = next;
            },
        }
    }
}

spec fn old_out_helper(v: Seq<Vec<char>>) -> Seq<Vec<char>> {
    v.drop_last()
}

/// `s.lines()` collected.
pub fn lines_exec(s: &[char]) -> (r: Vec<Vec<char>>)
    ensures
        vv(r@) == lines(s@),
{
    let mut out: Vec<Vec<char>> = Vec::new();
    let mut cur: &[char] = s;
    let nl: [char; 1] = ['\n'];
    let nls: &[char] = &nl;
    assert(nls@ =~= seq!['\n']);
    while cur.len() > 0
        invariant
            nls@ == seq!['\n'],
            vv(out@) + lines(cur@) == lines(s@),
        decreases cur@.len(),
    {
        proof {
            lemma_find(cur@, seq!['\n']);
        }
        let ghost before = vv(out@);
        match find_exec(cur, nls) {
            None => {
                let piece = vstd::slice::slice_to_vec(cur);
                out.push(piece);
                assert(vv(out@) =~= before.push(cur@));
                assert(before + lines(cur@) =~= vv(out@));
                return out;
            },
            Some(i) => {
                let n = cur.len();
                let mut end = i;
                if end > 0 && cur[end - 1] == '\r' {
                    end = end - 1;
                }
                let piece = vstd::slice::slice_to_vec(vstd::slice::slice_subrange(cur, 0, end));
                assert(piece@ =~= strip_cr(cur@.take(i as int)));
                out.push(piece);
                assert(vv(out@) =~= before.push(piece@));
                let next = vstd::slice::slice_subrange(cur, i + 1, n);
                assert(next@ =~= cur@.skip(i + 1));
                assert(before + lines(cur@) =~= vv(out@) + lines(next@));
                cur = next;
            },
        }
    }
    assert(lines(cur@) =~= Seq::<Seq<char>>::empty());
    assert(vv(out@) =~= vv(out@) + lines(cur@));
    out
}

/// The pieces joined with `sep`.
pub fn join_exec(parts: &[Vec<char>], sep: &[char]) -> (r: Vec<char>)
    ensures
        r@ == join(vv(parts@), sep@),
{
    let mut out: Vec<char> = Vec::new();
    let mut i: usize = 0;
    while i < parts.len()
        invariant
            i <= parts@.len(),
            out@ == join(vv(parts@.take(i as int)), sep@),
        decreases parts@.len() - i,
    {
        let ghost prev = parts@.take(i as int);
        assert(parts@.take(i + 1) =~= prev.push(parts@[i as int]));
        assert(vv(parts@.take(i + 1)).drop_last() =~= vv(prev));
        if i > 0 {
            append(&mut out, sep);
        }
        append(&mut out, parts[i].as_slice());
        i += 1;
    }
    assert(parts@.take(parts@.len() as int) =~= parts@);
    out
}


/// The length in bytes of the UTF-8 encoding (`str::len`).
pub open spec fn byte_len(s: Seq<char>) -> nat {
    vstd::utf8::encode_utf8(s).len()
}

/// The UTF-8 width of one character.
pub fn char_width(c: char) -> (r: usize)
    ensures
        r == vstd::utf8::encode_scalar(c as u32).len(),
        1 <= r <= 4,
{
    let u = c as u32;
    proof {
        vstd::utf8::char_is_scalar(c);
    }
    if u <= 0x7F {
        1
    } else if u <= 0x7FF {
        2
    } else if u <= 0xFFFF {
        3
    } else {
        4
    }
}

/// `str::len` of the text `s`.
pub fn byte_len_exec(s: &[char]) -> (r: usize)
    requires
        byte_len(s@) <= usize::MAX,
    ensures
        r == byte_len(s@),
{
    let mut acc: usize = 0;
    let mut i: usize = 0;
    assert(s@.skip(0) =~= s@);
    while i < s.len()
        invariant
            i <= s@.len(),
            acc + byte_len(s@.skip(i as int)) == byte_len(s@),
            byte_len(s@) <= usize::MAX,
        decreases s@.len() - i,
    {
        let w = char_width(s[i]);
        assert(s@.skip(i as int).drop_first() =~= s@.skip(i + 1));
        assert(s@.skip(i as int)[0] == s@[i as int]);
        acc = acc + w;
        i += 1;
    }
    assert(s@.skip(i as int) =~= Seq::<char>::empty());
    acc
}

pub proof fn lemma_byte_len_concat(a: Seq<char>, b: Seq<char>)
    ensures
        byte_len(a + b) == byte_len(a) + byte_len(b),
    decreases a.len(),
{
    if a.len() > 0 {
        assert((a + b).drop_first() =~= a.drop_first() + b);
        assert((a + b)[0] == a[0]);
        lemma_byte_len_concat(a.drop_first(), b);
    } else {
        assert(a + b =~= b);
    }
}

pub proof fn lemma_byte_len_ge_len(s: Seq<char>)
    ensures
        byte_len(s) >= s.len(),
    decreases s.len(),
{
    if s.len() > 0 {
        vstd::utf8::char_is_scalar(s[0]);
        lemma_byte_len_ge_len(s.drop_first());
    }
}


/// No character takes more than four bytes.
pub proof fn lemma_byte_len_le_4(s: Seq<char>)
    ensures
        byte_len(s) <= 4 * s.len(),
    decreases s.len(),
{
    if s.len() > 0 {
        vstd::utf8::char_is_scalar(s[0]);
        lemma_byte_len_le_4(s.drop_first());
    }
}

/// `s.replace(from, to)` for a non-empty pattern: every occurrence, left to
/// right and without overlap, replaced.
pub open spec fn replace(s: Seq<char>, from: Seq<char>, to: Seq<char>) -> Seq<char>
    decreases s.len(),
{
    if from.len() == 0 {
        s
    } else {
        match find(s, from) {
            None => s,
            Some(i) => if 0 <= i && i + from.len() <= s.len() {
                s.take(i) + to + replace(s.skip(i + from.len()), from, to)
            } else {
                s
            },
        }
    }
}

/// `s.replace(from, to)`.
pub fn replace_exec(s: &[char], from: &[char], to: &[char]) -> (r: Vec<char>)
    requires
        from@.len() > 0,
    ensures
        r@ == replace(s@, from@, to@),
{
    let mut out: Vec<char> = Vec::new();
    let mut cur: &[char] = s;
    loop
        invariant
            from@.len() > 0,
            out@ + replace(cur@, from@, to@) == replace(s@, from@, to@),
        decreases cur@.len(),
    {
        proof {
            lemma_find(cur@, from@);
        }
        match find_exec(cur, from) {
            None => {
                let ghost before = out@;
                append(&mut out, cur);
                assert(out@ =~= before + cur@);
                return out;
            },
            Some(i) => {
                let n = cur.len();
                assert(i + from@.len() <= n);
                let ghost before = out@;
                append(&mut out, vstd::slice::slice_subrange(cur, 0, i));
                append(&mut out, to);
                let next = vstd::slice::slice_subrange(cur, i + from.len(), n);
                assert(next@ =~= cur@.skip(i + from@.len()));
                assert(before + replace(cur@, from@, to@) =~= out@ + replace(next@, from@, to@));
                cur = next;
            },
        }
    }
}

/// `replace` with string literals as patterns.
pub fn replace_str(s: &[char], from: &str, to: &str) -> (r: Vec<char>)
    requires
        from@.len() > 0,
    ensures
        r@ == replace(s@, from@, to@),
{
    let f = to_chars(from);
    let t = to_chars(to);
    replace_exec(s, f.as_slice(), t.as_slice())
}

/// Whether `s` starts with the literal `p`.
pub fn starts_with_str(s: &[char], p: &str) -> (r: bool)
    ensures
        r == starts_with(s@, p@),
{
    let pc = to_chars(p);
    starts_with_exec(s, pc.as_slice())
}

/// Whether `s` contains the literal `p`.
pub fn contains_str(s: &[char], p: &str) -> (r: bool)
    ensures
        r == contains(s@, p@),
{
    let pc = to_chars(p);
    contains_exec(s, pc.as_slice())
}

/// Whether `s` ends with the literal `p`.
pub fn ends_with_str(s: &[char], p: &str) -> (r: bool)
    ensures
        r == ends_with(s@, p@),
{
    let pc = to_chars(p);
    ends_with_exec(s, pc.as_slice())
}

/// Whether `s` equals the literal `p`.
pub fn eq_str(s: &[char], p: &str) -> (r: bool)
    ensures
        r == (s@ == p@),
{
    let pc = to_chars(p);
    eq_exec(s, pc.as_slice())
}


/// `Some(byte_len(s))` when that is at most `limit`, else `None`.
pub fn byte_len_upto(s: &[char], limit: usize) -> (r: Option<usize>)
    ensures
        match r {
            Some(n) => n == byte_len(s@) && n <= limit,
            None => byte_len(s@) > limit,
        },
{
    let mut acc: usize = 0;
    let mut i: usize = 0;
    assert(s@.skip(0) =~= s@);
    while i < s.len()
        invariant
            i <= s@.len(),
            acc <= limit,
            acc + byte_len(s@.skip(i as int)) == byte_len(s@),
        decreases s@.len() - i,
    {
        let w = char_width(s[i]);
        assert(s@.skip(i as int).drop_first() =~= s@.skip(i + 1));
        assert(s@.skip(i as int)[0] == s@[i as int]);
        if w > limit - acc {
            return None;
        }
        acc = acc + w;
        i += 1;
    }
    assert(s@.skip(i as int) =~= Seq::<char>::empty());
    Some(acc)
}


/// No character of `s` is `c`.
pub open spec fn no_char(s: Seq<char>, c: char) -> bool {
    forall|i: int| 0 <= i < s.len() ==> s[i] != c
}

/// Splitting at the first `c` finds the first one.
pub proof fn lemma_split_once_at(a: Seq<char>, c: char, b: Seq<char>)
    requires
        no_char(a, c),
    ensures
        split_once(a + seq![c] + b, seq![c]) == Some((a, b)),
{
    let s = a + seq![c] + b;
    lemma_find(s, seq![c]);
    assert(s.subrange(a.len() as int, a.len() as int + 1) =~= seq![c]);
    assert(matches_at(s, seq![c], a.len() as int));
    match find(s, seq![c]) {
        Some(i) => {
            if i < a.len() {
                assert(s.subrange(i, i + 1)[0] == s[i]);
                assert(false);
            }
        },
        None => {},
    }
    assert(s.take(a.len() as int) =~= a);
    assert(s.skip(a.len() as int + 1) =~= b);
}

/// Splitting at the last `c` finds the last one.
pub proof fn lemma_rsplit_once_at(a: Seq<char>, c: char, b: Seq<char>)
    requires
        no_char(b, c),
    ensures
        rsplit_once(a + seq![c] + b, seq![c]) == Some((a, b)),
{
    let s = a + seq![c] + b;
    lemma_rfind(s, seq![c]);
    assert(s.subrange(a.len() as int, a.len() as int + 1) =~= seq![c]);
    assert(matches_at(s, seq![c], a.len() as int));
    match rfind(s, seq![c]) {
        Some(i) => {
            if i > a.len() {
                assert(s.subrange(i, i + 1)[0] == s[i]);
                assert(b[i - a.len() - 1] == s[i]);
                assert(false);
            }
        },
        None => {},
    }
    assert(s.take(a.len() as int) =~= a);
    assert(s.skip(a.len() as int + 1) =~= b);
}

/// Text without `c` does not split at `c`.
pub proof fn lemma_split_once_none(a: Seq<char>, c: char)
    requires
        no_char(a, c),
    ensures
        split_once(a, seq![c]) is None,
        rsplit_once(a, seq![c]) is None,
{
    lemma_find(a, seq![c]);
    lemma_rfind(a, seq![c]);
    match find(a, seq![c]) {
        Some(i) => {
            assert(a.subrange(i, i + 1)[0] == a[i]);
        },
        None => {},
    }
    match rfind(a, seq![c]) {
        Some(i) => {
            assert(a.subrange(i, i + 1)[0] == a[i]);
        },
        None => {},
    }
}

/// What a split at the last `c` gives back: the two sides around a `c`,
/// with no `c` after it.
pub proof fn lemma_rsplit_once_parts(s: Seq<char>, c: char)
    ensures
        rsplit_once(s, seq![c]) matches Some((x, u)) ==> s == x + seq![c] + u && no_char(u, c),
{
    lemma_rfind(s, seq![c]);
    match rfind(s, seq![c]) {
        Some(i) => {
            assert(s.subrange(i, i + 1)[0] == s[i]);
            assert(s =~= s.take(i) + seq![c] + s.skip(i + 1));
            let u = s.skip(i + 1);
            assert forall|k: int| 0 <= k < u.len() implies #[trigger] u[k] != c by {
                if u[k] == c {
                    assert(s.subrange(i + 1 + k, i + 2 + k) =~= seq![c]);
                    assert(matches_at(s, seq![c], i + 1 + k));
                }
            }
        },
        None => {},
    }
}

/// `p + x` starts with `p`, and stripping `p` gives `x`.
pub proof fn lemma_strip_prefix_concat(p: Seq<char>, x: Seq<char>)
    ensures
        starts_with(p + x, p),
        strip_prefix(p + x, p) == Some(x),
{
    assert((p + x).subrange(0, p.len() as int) =~= p);
    assert((p + x).skip(p.len() as int) =~= x);
}


/// The number of leading characters of `s` that are not whitespace.
pub open spec fn word_len(s: Seq<char>) -> nat
    decreases s.len(),
{
    if s.len() == 0 || is_ws(s[0]) {
        0
    } else {
        1 + word_len(s.skip(1))
    }
}

/// `str::split_whitespace`: the maximal runs of characters that are not
/// whitespace, in order.
pub open spec fn words(s: Seq<char>) -> Seq<Seq<char>>
    decreases s.len(),
{
    let t = skip_while(s, ws_pred());
    if t.len() == 0 {
        seq![]
    } else {
        if word_len(t) > 0 && word_len(t) <= t.len() && t.len() <= s.len() {
            seq![t.take(word_len(t) as int)] + words(t.skip(word_len(t) as int))
        } else {
            seq![]
        }
    }
}

pub proof fn lemma_skip_while_shape(s: Seq<char>)
    ensures
        skip_while(s, ws_pred()).len() <= s.len(),
        skip_while(s, ws_pred()) == s.skip(s.len() - skip_while(s, ws_pred()).len()),
        skip_while(s, ws_pred()).len() > 0 ==> !is_ws(skip_while(s, ws_pred())[0]),
    decreases s.len(),
{
    if s.len() > 0 && is_ws(s[0]) {
        lemma_skip_while_shape(s.skip(1));
        assert(s.skip(1).skip(s.skip(1).len() - skip_while(s.skip(1), ws_pred()).len()) =~= s.skip(
            s.len() - skip_while(s.skip(1), ws_pred()).len(),
        ));
    } else {
        assert(s.skip(0) =~= s);
    }
}

pub proof fn lemma_word_len(s: Seq<char>)
    ensures
        word_len(s) <= s.len(),
        forall|i: int| 0 <= i < word_len(s) ==> !is_ws(#[trigger] s[i]),
        word_len(s) < s.len() ==> is_ws(s[word_len(s) as int]),
    decreases s.len(),
{
    if s.len() > 0 && !is_ws(s[0]) {
        lemma_word_len(s.skip(1));
        assert forall|i: int| 0 <= i < word_len(s) implies !is_ws(#[trigger] s[i]) by {
            if i > 0 {
                assert(s[i] == s.skip(1)[i - 1]);
            }
        }
    }
}

/// `s.split_whitespace()` collected.
pub fn split_whitespace(s: &[char]) -> (r: Vec<Vec<char>>)
    ensures
        vv(r@) == words(s@),
{
    let mut out: Vec<Vec<char>> = Vec::new();
    let mut i: usize = 0;
    assert(s@.skip(0) =~= s@);
    while i < s.len()
        invariant
            i <= s@.len(),
            vv(out@) + words(s@.skip(i as int)) == words(s@),
        decreases s@.len() - i,
    {
        let ghost cur = s@.skip(i as int);
        // skip whitespace
        let mut a: usize = i;
        while a < s.len() && is_ws_exec(s[a])
            invariant
                i <= a <= s@.len(),
                skip_while(s@.skip(a as int), ws_pred()) == skip_while(cur, ws_pred()),
                cur == s@.skip(i as int),
            decreases s@.len() - a,
        {
            assert(s@.skip(a as int).skip(1) =~= s@.skip(a + 1));
            a += 1;
        }
        assert(skip_while(s@.skip(a as int), ws_pred()) == s@.skip(a as int));
        proof {
            lemma_skip_while_shape(cur);
        }
        if a == s.len() {
            assert(skip_while(cur, ws_pred()).len() == 0);
            assert(words(cur) == Seq::<Seq<char>>::empty());
            assert(vv(out@) + words(s@.skip(i as int)) =~= vv(out@));
            i = a;
            assert(s@.skip(i as int) =~= Seq::<char>::empty());
            assert(words(s@.skip(i as int)) == Seq::<Seq<char>>::empty());
            assert(vv(out@) + words(s@.skip(i as int)) =~= vv(out@));
        } else {
            let mut b: usize = a;
            let ghost t = s@.skip(a as int);
            assert(t.skip(0) =~= t);
            while b < s.len() && !is_ws_exec(s[b])
                invariant
                    a <= b <= s@.len(),
                    t == s@.skip(a as int),
                    word_len(t) == (b - a) + word_len(s@.skip(b as int)),
                decreases s@.len() - b,
            {
                assert(s@.skip(b as int).skip(1) =~= s@.skip(b + 1));
                b += 1;
            }
            assert(word_len(s@.skip(b as int)) == 0);
            let w = vstd::slice::slice_to_vec(vstd::slice::slice_subrange(s, a, b));
            assert(w@ =~= t.take(word_len(t) as int));
            assert(t.skip(word_len(t) as int) =~= s@.skip(b as int));
            let ghost before = out@;
            out.push(w);
            proof {
                lemma_vv_push(before, w);
            }
            assert(vv(out@) + words(s@.skip(b as int)) =~= vv(before) + words(cur));
            i = b;
        }
    }
    assert(s@.skip(i as int) =~= Seq::<char>::empty());
    assert(vv(out@) + words(s@.skip(i as int)) =~= vv(out@));
    out
}


/// `to` before every character of `s` and once at its end: what
/// `str::replace` does with an empty pattern.
pub open spec fn interleave(s: Seq<char>, to: Seq<char>) -> Seq<char>
    decreases s.len(),
{
    if s.len() == 0 {
        to
    } else {
        to + seq![s[0]] + interleave(s.skip(1), to)
    }
}

/// `s.replace(from, to)` for any pattern.
pub open spec fn replace_all(s: Seq<char>, from: Seq<char>, to: Seq<char>) -> Seq<char> {
    if from.len() == 0 {
        interleave(s, to)
    } else {
        replace(s, from, to)
    }
}

/// `s.replace(from, to)`.
pub fn replace_all_exec(s: &[char], from: &[char], to: &[char]) -> (r: Vec<char>)
    ensures
        r@ == replace_all(s@, from@, to@),
{
    if from.len() > 0 {
        return replace_exec(s, from, to);
    }
    let mut out: Vec<char> = Vec::new();
    let mut i: usize = 0;
    assert(s@.skip(0) =~= s@);
    while i < s.len()
        invariant
            i <= s@.len(),
            from@.len() == 0,
            out@ + interleave(s@.skip(i as int), to@) == interleave(s@, to@),
        decreases s@.len() - i,
    {
        let ghost before = out@;
        append(&mut out, to);
        out.push(s[i]);
        assert(s@.skip(i as int).skip(1) =~= s@.skip(i + 1));
        assert(out@ + interleave(s@.skip(i + 1), to@) =~= before + interleave(s@.skip(i as int), to@));
        i += 1;
    }
    assert(s@.skip(i as int) =~= Seq::<char>::empty());
    append(&mut out, to);
    out
}


/// The UTF-8 width of one character.
pub open spec fn cw(c: char) -> nat {
    vstd::utf8::encode_scalar(c as u32).len()
}

pub proof fn lemma_byte_len_first(s: Seq<char>)
    requires
        s.len() > 0,
    ensures
        byte_len(s) == cw(s[0]) + byte_len(s.skip(1)),
{
    assert(s =~= seq![s[0]] + s.skip(1));
    lemma_byte_len_concat(seq![s[0]], s.skip(1));
    assert(seq![s[0]].drop_first() =~= Seq::<char>::empty());
}

/// Every line of a text is at most as long in bytes as the text.
pub proof fn lemma_lines_byte_len(s: Seq<char>)
    ensures
        forall|i: int| 0 <= i < lines(s).len() ==> byte_len(#[trigger] lines(s)[i]) <= byte_len(s),
    decreases s.len(),
{
    if s.len() > 0 {
        match find(s, seq!['\n']) {
            None => {},
            Some(i) => if 0 <= i < s.len() {
                lemma_lines_byte_len(s.skip(i + 1));
                assert(s =~= s.take(i) + s.skip(i));
                lemma_byte_len_concat(s.take(i), s.skip(i));
                assert(s.skip(i) =~= s.skip(i).take(1) + s.skip(i + 1));
                lemma_byte_len_concat(s.skip(i).take(1), s.skip(i + 1));
                let h = s.take(i);
                if h.len() > 0 && h.last() == '\r' {
                    assert(h =~= h.drop_last() + seq![h.last()]);
                    lemma_byte_len_concat(h.drop_last(), seq![h.last()]);
                }
                assert forall|k: int| 0 <= k < lines(s).len() implies byte_len(#[trigger] lines(s)[k]) <= byte_len(s) by {
                    if k > 0 {
                        assert(lines(s)[k] == lines(s.skip(i + 1))[k - 1]);
                    }
                }
            },
        }
    }
}

pub proof fn lemma_byte_len_take(s: Seq<char>, k: int)
    requires
        0 <= k <= s.len(),
    ensures
        byte_len(s.take(k)) <= byte_len(s),
{
    assert(s =~= s.take(k) + s.skip(k));
    lemma_byte_len_concat(s.take(k), s.skip(k));
}

/// A text of ASCII characters takes one byte per character.
pub proof fn lemma_ascii_byte_len(s: Seq<char>)
    requires
        forall|i: int| 0 <= i < s.len() ==> (#[trigger] s[i] as u32) < 128,
    ensures
        byte_len(s) == s.len(),
    decreases s.len(),
{
    if s.len() > 0 {
        lemma_byte_len_first(s);
        assert(cw(s[0]) == 1);
        assert forall|i: int| 0 <= i < s.skip(1).len() implies (#[trigger] s.skip(1)[i] as u32) < 128 by {
            assert(s.skip(1)[i] == s[i + 1]);
        }
        lemma_ascii_byte_len(s.skip(1));
    } else {
        assert(vstd::utf8::encode_utf8(s) =~= Seq::<u8>::empty());
    }
}

}
