//! A JSON document as the service parsers read it, and the lookups they make
//! on it.
//!
//! Objects keep their members in order; a lookup by key finds the first
//! member with that key.
use vstd::prelude::*;
use crate::num::hex_digit;

verus! {

/// A parsed JSON value.
#[derive(Debug)]
pub enum Json {
    Null,
    Bool(bool),
    /// A number that fits in `i64`.
    Int(i64),
    /// A number that no `i64` holds (a fraction, or an integer past its
    /// range). Nothing in the library reads its value.
    OtherNumber,
    Str(String),
    Array(Vec<Json>),
    Object(Vec<(String, Json)>),
}

/// The value of the first member of `members` whose key is `key`.
pub open spec fn member(members: Seq<(String, Json)>, key: Seq<char>) -> Option<Json>
    decreases members.len(),
{
    if members.len() == 0 {
        None
    } else if members[0].0@ == key {
        Some(members[0].1)
    } else {
        member(members.drop_first(), key)
    }
}

/// `value.get(key)`, for a value that may be absent: the member `key` of an
/// object, `None` for anything else.
pub open spec fn jget(j: Option<Json>, key: Seq<char>) -> Option<Json> {
    match j {
        Some(Json::Object(ms)) => member(ms@, key),
        _ => None,
    }
}

/// `as_str`.
pub open spec fn jstr(j: Option<Json>) -> Option<Seq<char>> {
    match j {
        Some(Json::Str(s)) => Some(s@),
        _ => None,
    }
}

/// `as_array`.
pub open spec fn jarr(j: Option<Json>) -> Option<Seq<Json>> {
    match j {
        Some(Json::Array(v)) => Some(v@),
        _ => None,
    }
}

/// `as_bool`.
pub open spec fn jbool(j: Option<Json>) -> Option<bool> {
    match j {
        Some(Json::Bool(b)) => Some(b),
        _ => None,
    }
}

/// `as_i64`.
pub open spec fn jint(j: Option<Json>) -> Option<i64> {
    match j {
        Some(Json::Int(n)) => Some(n),
        _ => None,
    }
}

/// Whether the value is an object with members.
pub open spec fn jnonempty_object(j: Option<Json>) -> bool {
    match j {
        Some(Json::Object(ms)) => ms@.len() > 0,
        _ => false,
    }
}

/// A string member of an object: `value.get(key).and_then(as_str)`.
pub open spec fn jget_str(j: Option<Json>, key: Seq<char>) -> Option<Seq<char>> {
    jstr(jget(j, key))
}

/// A string member, or the empty text: `... .unwrap_or("")`.
pub open spec fn jget_str_or_empty(j: Option<Json>, key: Seq<char>) -> Seq<char> {
    match jget_str(j, key) {
        Some(s) => s,
        None => seq![],
    }
}

/// The first element of an array: `value.get(0)`.
pub open spec fn jfirst(j: Option<Json>) -> Option<Json> {
    match j {
        Some(Json::Array(v)) => if v@.len() > 0 {
            Some(v@[0])
        } else {
            None
        },
        _ => None,
    }
}

/// The value behind an optional reference.
pub open spec fn od(o: Option<&Json>) -> Option<Json> {
    match o {
        Some(j) => Some(*j),
        None => None,
    }
}

/// `value.get(key)`.
pub fn get<'a>(j: Option<&'a Json>, key: &str) -> (r: Option<&'a Json>)
    ensures
        od(r) == jget(od(j), key@),
{
    let ms = match j {
        Some(Json::Object(ms)) => ms,
        _ => return None,
    };
    let k = key.to_owned();
    let mut i: usize = 0;
    assert(ms@.skip(0) =~= ms@);
    while i < ms.len()
        invariant
            i <= ms@.len(),
            k@ == key@,
            jget(od(j), key@) == member(ms@, key@),
            member(ms@, key@) == member(ms@.skip(i as int), key@),
        decreases ms@.len() - i,
    {
        let e = &ms[i];
        assert(ms@.skip(i as int)[0] == ms@[i as int]);
        assert(ms@.skip(i as int).drop_first() =~= ms@.skip(i + 1));
        if e.0 == k {
            assert(member(ms@.skip(i as int), key@) == Some(e.1));
            return Some(&e.1);
        }
        i += 1;
    }
    assert(ms@.skip(i as int) =~= Seq::<(String, Json)>::empty());
    None
}

/// `value.get(0)` on an array.
pub fn first<'a>(j: Option<&'a Json>) -> (r: Option<&'a Json>)
    ensures
        od(r) == jfirst(od(j)),
{
    match j {
        Some(Json::Array(v)) => if v.len() > 0 {
            Some(&v[0])
        } else {
            None
        },
        _ => None,
    }
}

/// `as_str` on a value that may be absent.
pub fn as_str<'a>(j: Option<&'a Json>) -> (r: Option<&'a String>)
    ensures
        match r {
            Some(s) => jstr(od(j)) == Some(s@),
            None => jstr(od(j)) is None,
        },
{
    match j {
        Some(Json::Str(s)) => Some(s),
        _ => None,
    }
}

/// `as_array` on a value that may be absent.
pub fn as_array<'a>(j: Option<&'a Json>) -> (r: Option<&'a Vec<Json>>)
    ensures
        match r {
            Some(v) => jarr(od(j)) == Some(v@),
            None => jarr(od(j)) is None,
        },
{
    match j {
        Some(Json::Array(v)) => Some(v),
        _ => None,
    }
}

/// `as_bool` on a value that may be absent.
pub fn as_bool(j: Option<&Json>) -> (r: Option<bool>)
    ensures
        r == jbool(od(j)),
{
    match j {
        Some(Json::Bool(b)) => Some(*b),
        _ => None,
    }
}

/// `as_i64` on a value that may be absent.
pub fn as_i64(j: Option<&Json>) -> (r: Option<i64>)
    ensures
        r == jint(od(j)),
{
    match j {
        Some(Json::Int(n)) => Some(*n),
        _ => None,
    }
}

/// Whether the value is an object with at least one member.
pub fn is_nonempty_object(j: Option<&Json>) -> (r: bool)
    ensures
        r == jnonempty_object(od(j)),
{
    match j {
        Some(Json::Object(ms)) => ms.len() > 0,
        _ => false,
    }
}

/// A string member of an object, as characters.
pub fn get_str(j: Option<&Json>, key: &str) -> (r: Option<Vec<char>>)
    ensures
        match r {
            Some(s) => jget_str(od(j), key@) == Some(s@),
            None => jget_str(od(j), key@) is None,
        },
{
    match as_str(get(j, key)) {
        Some(s) => Some(crate::text::to_chars(s.as_str())),
        None => None,
    }
}

/// A string member of an object as characters, empty when it is missing.
pub fn get_str_or_empty(j: Option<&Json>, key: &str) -> (r: Vec<char>)
    ensures
        r@ == jget_str_or_empty(od(j), key@),
{
    match get_str(j, key) {
        Some(s) => s,
        None => Vec::new(),
    }
}


/// How `serde_json` writes one character inside a string literal: `"`
/// and `\` after a backslash; backspace, tab, line feed, form feed and
/// carriage return as `\b`, `\t`, `\n`, `\f`, `\r`; the other control
/// characters below 0x20 as `\u00` and two lowercase hexadecimal digits;
/// every other character as itself.
pub open spec fn json_escape(c: char) -> Seq<char> {
    let u = c as u32;
    if c == '"' {
        seq!['\\', '"']
    } else if c == '\\' {
        seq!['\\', '\\']
    } else if u == 0x08 {
        seq!['\\', 'b']
    } else if u == 0x09 {
        seq!['\\', 't']
    } else if u == 0x0A {
        seq!['\\', 'n']
    } else if u == 0x0C {
        seq!['\\', 'f']
    } else if u == 0x0D {
        seq!['\\', 'r']
    } else if u < 0x20 {
        seq!['\\', 'u', '0', '0', hex_digit((u / 16) as nat), hex_digit((u % 16) as nat)]
    } else {
        seq![c]
    }
}

/// The characters of a text, each written as `json_escape` writes it.
pub open spec fn json_escaped(s: Seq<char>) -> Seq<char>
    decreases s.len(),
{
    if s.len() == 0 {
        seq![]
    } else {
        json_escaped(s.drop_last()) + json_escape(s.last())
    }
}

/// The JSON string literal that `serde_json` writes for a text: the escaped
/// text between double quotes.
pub open spec fn json_quoted(s: Seq<char>) -> Seq<char> {
    seq!['"'] + json_escaped(s) + seq!['"']
}

/// Calls `serde_json::to_string` on a `&str`; the text it returns is
/// `json_quoted` of the argument, as the escape table and
/// `write_char_escape` in its serializer write it. It succeeds for every text: its
/// documentation lets serialization fail only where the value's `Serialize`
/// fails or a map has non-string keys, and a `str` serializes through
/// `serialize_str`, whose only error is one from the writer, here an
/// in-memory vector.
#[verifier::external_body]
pub(crate) fn quote_json(s: &str) -> (r: Option<String>)
    ensures
        r is Some,
        r matches Some(q) ==> q@ == json_quoted(s@),
{
    serde_json::to_string(s).ok()
}

} // verus!
