//! Which schema migrations run, in which order, and the statements of
//! each.
use vstd::prelude::*;
use crate::text::{from_chars, rfind, rfind_exec, split_exec, split_seq, to_chars, trim, trim_exec, vv};
use crate::shared::views;

verus! {

broadcast use vstd::seq_lib::to_multiset_insert, vstd::seq_lib::to_multiset_build;

/// `a` comes no later than `b` in code point order (the order of their
/// UTF-8 bytes, which is how strings compare).
pub open spec fn lex_le(a: Seq<char>, b: Seq<char>) -> bool
    decreases a.len(),
{
    if a.len() == 0 {
        true
    } else if b.len() == 0 {
        false
    } else if (a[0] as u32) != (b[0] as u32) {
        (a[0] as u32) < (b[0] as u32)
    } else {
        lex_le(a.skip(1), b.skip(1))
    }
}

pub open spec fn sorted(s: Seq<Seq<char>>) -> bool {
    forall|i: int, j: int| 0 <= i < j < s.len() ==> lex_le(#[trigger] s[i], #[trigger] s[j])
}

/// Of two texts, one comes no later than the other.
pub proof fn lemma_lex_total(a: Seq<char>, b: Seq<char>)
    ensures
        lex_le(a, b) || lex_le(b, a),
    decreases a.len(),
{
    if a.len() > 0 && b.len() > 0 && (a[0] as u32) == (b[0] as u32) {
        lemma_lex_total(a.skip(1), b.skip(1));
    }
}

/// The order is transitive.
pub proof fn lemma_lex_trans(a: Seq<char>, b: Seq<char>, c: Seq<char>)
    requires
        lex_le(a, b),
        lex_le(b, c),
    ensures
        lex_le(a, c),
    decreases a.len(),
{
    if a.len() > 0 && b.len() > 0 && c.len() > 0 && (a[0] as u32) == (b[0] as u32) && (b[0] as u32) == (c[0]
        as u32) {
        lemma_lex_trans(a.skip(1), b.skip(1), c.skip(1));
    }
}

fn lex_le_exec(a: &[char], b: &[char]) -> (r: bool)
    ensures
        r == lex_le(a@, b@),
{
    let mut i: usize = 0;
    assert(a@.skip(0) =~= a@);
    assert(b@.skip(0) =~= b@);
    while i < a.len() && i < b.len() && (a[i] as u32) == (b[i] as u32)
        invariant
            i <= a@.len(),
            i <= b@.len(),
            lex_le(a@, b@) == lex_le(a@.skip(i as int), b@.skip(i as int)),
        decreases a@.len() - i,
    {
        assert(a@.skip(i as int).skip(1) =~= a@.skip(i as int + 1));
        assert(b@.skip(i as int).skip(1) =~= b@.skip(i as int + 1));
        i += 1;
    }
    if i == a.len() {
        true
    } else if i == b.len() {
        false
    } else {
        (a[i] as u32) < (b[i] as u32)
    }
}

/// Inserting `x` after every element that comes no later than it keeps a
/// sorted sequence sorted.
proof fn lemma_insert_sorted(s: Seq<Seq<char>>, k: int, x: Seq<char>)
    requires
        sorted(s),
        0 <= k <= s.len(),
        forall|j: int| 0 <= j < k ==> lex_le(#[trigger] s[j], x),
        k < s.len() ==> !lex_le(s[k], x),
    ensures
        sorted(s.insert(k, x)),
{
    let t = s.insert(k, x);
    if k < s.len() {
        lemma_lex_total(s[k], x);
    }
    assert forall|p: int, q: int| 0 <= p < q < t.len() implies lex_le(#[trigger] t[p], #[trigger] t[q]) by {
        if q < k {
            assert(t[p] == s[p] && t[q] == s[q]);
        } else if q == k {
            assert(t[p] == s[p]);
        } else if p == k {
            assert(t[q] == s[q - 1]);
            if q - 1 > k {
                lemma_lex_trans(x, s[k], s[q - 1]);
            }
        } else if p < k {
            assert(t[p] == s[p] && t[q] == s[q - 1]);
        } else {
            assert(t[p] == s[p - 1] && t[q] == s[q - 1]);
        }
    }
}

/// The names in code point order, each kept as often as it occurs.
pub fn sort_names(names: &[String]) -> (r: Vec<String>)
    ensures
        sorted(views(r@)),
        views(r@).to_multiset() == views(names@).to_multiset(),
{
    let mut out: Vec<String> = Vec::new();
    let mut i: usize = 0;
    assert(views(out@) =~= views(names@).take(0));
    while i < names.len()
        invariant
            i <= names@.len(),
            sorted(views(out@)),
            views(out@).to_multiset() == views(names@).take(i as int).to_multiset(),
        decreases names@.len() - i,
    {
        let x = names[i].clone();
        let xc = to_chars(x.as_str());
        let mut k: usize = 0;
        while k < out.len()
            invariant
                k <= out@.len(),
                xc@ == x@,
                forall|j: int| 0 <= j < k ==> lex_le(#[trigger] views(out@)[j], x@),
            ensures
                k <= out@.len(),
                forall|j: int| 0 <= j < k ==> lex_le(#[trigger] views(out@)[j], x@),
                k < out@.len() ==> !lex_le(views(out@)[k as int], x@),
            decreases out@.len() - k,
        {
            let oc = to_chars(out[k].as_str());
            assert(views(out@)[k as int] == oc@);
            if !lex_le_exec(oc.as_slice(), xc.as_slice()) {
                break;
            }
            k += 1;
        }
        let ghost before = out@;
        proof {
            lemma_insert_sorted(views(before), k as int, x@);
        }
        out.insert(k, x);
        assert(views(out@) =~= views(before).insert(k as int, x@));
        assert(views(names@).take(i as int + 1) =~= views(names@).take(i as int).push(x@));
        i += 1;
    }
    assert(views(names@).take(names@.len() as int) =~= views(names@));
    out
}

/// A name that `Path::extension` reads as ending in `sql`: there is a `.`
/// that is not the first character, and `sql` follows the last one.
pub open spec fn is_migration_file_spec(name: Seq<char>) -> bool {
    match rfind(name, "."@) {
        Some(i) => i > 0 && name.skip(i + 1) == "sql"@,
        None => false,
    }
}

pub fn is_migration_file(name: &str) -> (r: bool)
    ensures
        r == is_migration_file_spec(name@),
{
    let c = to_chars(name);
    let n: usize = c.len();
    let dot = to_chars(".");
    match rfind_exec(c.as_slice(), dot.as_slice()) {
        Some(i) => {
            proof {
                reveal_strlit(".");
                assert(dot@.len() == 1);
                crate::text::lemma_rfind(c@, dot@);
                assert(crate::text::matches_at(c@, dot@, i as int));
                assert(i + 1 <= c@.len());
            }
            let after: usize = i + 1;
            i > 0 && crate::text::eq_str(vstd::slice::slice_subrange(c.as_slice(), after, n), "sql")
        },
        None => false,
    }
}

pub open spec fn migration_pred() -> spec_fn(Seq<char>) -> bool {
    |n: Seq<char>| is_migration_file_spec(n)
}

/// The migrations to consider, in the order they run: the `.sql` files
/// among `names`, sorted.
pub fn migration_files(names: &[String]) -> (r: Vec<String>)
    ensures
        sorted(views(r@)),
        views(r@).to_multiset() == views(names@).filter(migration_pred()).to_multiset(),
{
    let mut picked: Vec<String> = Vec::new();
    let mut i: usize = 0;
    proof {
        reveal(Seq::filter);
    }
    assert(views(names@).take(0) =~= Seq::<Seq<char>>::empty());
    while i < names.len()
        invariant
            i <= names@.len(),
            views(picked@) == views(names@).take(i as int).filter(migration_pred()),
        decreases names@.len() - i,
    {
        let ghost before = picked@;
        let ghost t = views(names@).take(i as int + 1);
        assert(t.drop_last() =~= views(names@).take(i as int));
        assert(t.last() == names@[i as int]@);
        if is_migration_file(names[i].as_str()) {
            picked.push(names[i].clone());
            assert(views(picked@) =~= views(before).push(names@[i as int]@));
        }
        proof {
            reveal(Seq::filter);
        }
        i += 1;
    }
    assert(views(names@).take(names@.len() as int) =~= views(names@));
    sort_names(picked.as_slice())
}

/// The statements of a migration: the text between `;`s, trimmed, leaving
/// out the empty ones.
pub open spec fn statements_spec(sql: Seq<char>) -> Seq<Seq<char>> {
    split_seq(sql, ";"@).map_values(|p: Seq<char>| trim(p)).filter(|p: Seq<char>| p.len() > 0)
}

pub fn split_statements(sql: &str) -> (r: Vec<String>)
    ensures
        views(r@) == statements_spec(sql@),
{
    let c = to_chars(sql);
    let semi = to_chars(";");
    proof {
        reveal_strlit(";");
    }
    let parts = split_exec(c.as_slice(), semi.as_slice());
    let ghost trimmed = vv(parts@).map_values(|p: Seq<char>| trim(p));
    let mut out: Vec<String> = Vec::new();
    let mut i: usize = 0;
    proof {
        reveal(Seq::filter);
    }
    assert(trimmed.take(0) =~= Seq::<Seq<char>>::empty());
    while i < parts.len()
        invariant
            i <= parts@.len(),
            trimmed == vv(parts@).map_values(|p: Seq<char>| trim(p)),
            views(out@) == trimmed.take(i as int).filter(|p: Seq<char>| p.len() > 0),
        decreases parts@.len() - i,
    {
        let ghost before = out@;
        let ghost t = trimmed.take(i as int + 1);
        assert(t.drop_last() =~= trimmed.take(i as int));
        let s = trim_exec(parts[i].as_slice());
        assert(s@ == t.last());
        if s.len() > 0 {
            out.push(from_chars(s));
            assert(views(out@) =~= views(before).push(s@));
        }
        proof {
            reveal(Seq::filter);
        }
        i += 1;
    }
    assert(trimmed.take(parts@.len() as int) =~= trimmed);
    out
}

} // verus!
