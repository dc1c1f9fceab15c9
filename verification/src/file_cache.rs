//! The pages of file snippets, kept so that Previous and Next can turn
//! them, and fetched again once they have expired.
use vstd::prelude::*;
use crate::cache::{TimedEntry, TimedMap, elapsed_secs, elapsed_secs_exec, evicted, lemma_evicted_bound, map_of, keys_distinct};
use crate::git_file::{GitFileLink, GitFileLinkView};
use crate::pagination::PAGE_CACHE_TTL_SECONDS;
use crate::shared::views;
use crate::num::hex_digit;

verus! {

/// How many file views are kept at most.
pub const FILE_CACHE_MAX_ENTRIES: usize = 50;

/// A cached file view: the link (to fetch it again) and its pages.
pub struct FilePages {
    pub link: GitFileLink,
    pub pages: Vec<String>,
}

pub open spec fn expired(stamp: u64, now: u64) -> bool {
    elapsed_secs(stamp, now) > PAGE_CACHE_TTL_SECONDS
}

/// Cached file views by key.
pub struct FileCache {
    pub map: TimedMap<FilePages>,
}

/// `after` is `before` with the pages of every expired view dropped: the
/// same keys, stamps and links.
pub open spec fn pages_cleared(
    before: Map<Seq<char>, (u64, FilePages)>,
    after: Map<Seq<char>, (u64, FilePages)>,
    now: u64,
) -> bool {
    &&& after.dom() == before.dom()
    &&& forall|k: Seq<char>| #[trigger] before.dom().contains(k) ==> {
        &&& after[k].0 == before[k].0
        &&& after[k].1.link.view() == before[k].1.link.view()
        &&& if expired(before[k].0, now) {
            after[k].1.pages@.len() == 0
        } else {
            after[k].1.pages@ == before[k].1.pages@
        }
    }
}

/// The hash that `std`'s `DefaultHasher::new()` gives a text: every hasher
/// that `new` makes starts from the same fixed keys, so the hash depends on
/// the text alone (for the standard library this crate is built with).
pub uninterp spec fn default_hash(s: Seq<char>) -> u64;

/// `DefaultHasher::new()`, `Hash::hash` of the text, then `finish`. The
/// contract ties the result to `default_hash`.
#[verifier::external_body]
fn hash_text(s: &str) -> (r: u64)
    ensures
        r == default_hash(s@),
{
    let mut hasher = std::hash::DefaultHasher::new();
    std::hash::Hash::hash(s, &mut hasher);
    std::hash::Hasher::finish(&hasher)
}

/// The last `n` lowercase hexadecimal digits of `v`, zeros in front: for a
/// `u64` and `n == 16`, what `format!("{:016x}", v)` writes.
pub open spec fn hex_fixed(v: nat, n: nat) -> Seq<char>
    decreases n,
{
    if n == 0 {
        seq![]
    } else {
        hex_fixed(v / 16, (n - 1) as nat).push(hex_digit(v % 16))
    }
}

/// The key under which a file view is cached: the hash of its raw URL in
/// sixteen lowercase hexadecimal digits.
pub open spec fn cache_key_spec(raw_url: Seq<char>) -> Seq<char> {
    hex_fixed(default_hash(raw_url) as nat, 16)
}

fn hex_char(d: u64) -> (c: char)
    requires
        d < 16,
    ensures
        c == hex_digit(d as nat),
{
    let b: u8 = if d < 10 {
        (d as u8) + 48
    } else {
        (d as u8) + 87
    };
    b as char
}

/// `v` in sixteen lowercase hexadecimal digits.
pub fn hex16(v: u64) -> (r: String)
    ensures
        r@ == hex_fixed(v as nat, 16),
{
    let mut x: u64 = v;
    let mut out: Vec<char> = Vec::new();
    let mut k: usize = 0;
    while k < 16
        invariant
            k <= 16,
            hex_fixed(v as nat, 16) == hex_fixed(x as nat, (16 - k) as nat) + out@,
        decreases 16 - k,
    {
        let c = hex_char(x % 16);
        let ghost rest = hex_fixed((x / 16) as nat, (16 - k - 1) as nat);
        assert(hex_fixed(x as nat, (16 - k) as nat) == rest.push(c));
        let ghost before = out@;
        out.insert(0, c);
        assert(rest.push(c) + before =~= rest + out@);
        x = x / 16;
        k = k + 1;
    }
    assert(hex_fixed(x as nat, 0) + out@ =~= out@);
    crate::text::from_chars(out.as_slice())
}

/// The key under which the view of the file at `raw_url` is cached.
pub fn cache_key(raw_url: &str) -> (r: String)
    ensures
        r@ == cache_key_spec(raw_url@),
{
    hex16(hash_text(raw_url))
}

impl GitFileLink {
    /// A copy of the link.
    pub fn duplicate(&self) -> (r: GitFileLink)
        ensures
            r.view() == self.view(),
    {
        GitFileLink {
            platform: self.platform,
            original_url: self.original_url.clone(),
            raw_url: self.raw_url.clone(),
            file_name: self.file_name.clone(),
            start_line: self.start_line,
            end_line: self.end_line,
        }
    }
}

impl FileCache {
    pub open spec fn wf(&self) -> bool {
        self.map.wf() && self.map.len_spec() <= FILE_CACHE_MAX_ENTRIES
    }

    pub open spec fn view(&self) -> Map<Seq<char>, (u64, FilePages)> {
        self.map.view()
    }

    pub fn new() -> (r: Self)
        ensures
            r.wf(),
            r.view() == Map::<Seq<char>, (u64, FilePages)>::empty(),
    {
        FileCache { map: TimedMap::new() }
    }

    /// Drops the pages of every expired view, keeping its link.
    fn clear_expired(&mut self, now: u64)
        requires
            old(self).wf(),
        ensures
            final(self).wf(),
            pages_cleared(old(self).view(), final(self).view(), now),
    {
        let ghost old_es = self.map.entries@;
        let ghost n = old_es.len();
        let mut src: Vec<TimedEntry<FilePages>> = Vec::new();
        std::mem::swap(&mut src, &mut self.map.entries);
        let mut rest: Vec<TimedEntry<FilePages>> = Vec::new();
        while src.len() > 0
            invariant
                n == old_es.len(),
                src@.len() <= n,
                src@ =~= old_es.take(src@.len() as int),
                rest@ =~= old_es.subrange(src@.len() as int, n as int).reverse(),
            decreases src@.len(),
        {
            let e = src.pop().unwrap();
            rest.push(e);
        }
        let mut out: Vec<TimedEntry<FilePages>> = Vec::new();
        while rest.len() > 0
            invariant
                keys_distinct(old_es),
                n == old_es.len(),
                rest@.len() <= n,
                rest@ =~= old_es.subrange(n - rest@.len(), n as int).reverse(),
                out@.len() == n - rest@.len(),
                forall|j: int| 0 <= j < out@.len() ==> {
                    &&& (#[trigger] out@[j]).key@ == old_es[j].key@
                    &&& out@[j].stamp == old_es[j].stamp
                    &&& out@[j].value.link.view() == old_es[j].value.link.view()
                    &&& if expired(old_es[j].stamp, now) {
                        out@[j].value.pages@.len() == 0
                    } else {
                        out@[j].value.pages@ == old_es[j].value.pages@
                    }
                },
            decreases rest@.len(),
        {
            let ghost k = n - rest@.len();
            let e = rest.pop().unwrap();
            assert(e == old_es[k]);
            assert(rest@ =~= old_es.subrange(n - rest@.len(), n as int).reverse());
            let TimedEntry { key, stamp, value } = e;
            let FilePages { link, pages } = value;
            let kept = if elapsed_secs_exec(stamp, now) > PAGE_CACHE_TTL_SECONDS {
                Vec::new()
            } else {
                pages
            };
            out.push(TimedEntry { key, stamp, value: FilePages { link, pages: kept } });
        }
        proof {
            assert(keys_distinct(out@));
            lemma_map_of_same_keys(old_es, out@);
        }
        self.map.entries = out;
        proof {
            crate::cache::lemma_map_of_dom(old_es);
            crate::cache::lemma_map_of_dom(out@);
            assert forall|key: Seq<char>| #[trigger] map_of(old_es).dom().contains(key) implies {
                &&& map_of(out@)[key].0 == map_of(old_es)[key].0
                &&& map_of(out@)[key].1.link.view() == map_of(old_es)[key].1.link.view()
                &&& if expired(map_of(old_es)[key].0, now) {
                    map_of(out@)[key].1.pages@.len() == 0
                } else {
                    map_of(out@)[key].1.pages@ == map_of(old_es)[key].1.pages@
                }
            } by {
                let j = choose|j: int| 0 <= j < old_es.len() && old_es[j].key@ == key;
                crate::cache::lemma_map_of_index(old_es, j);
                crate::cache::lemma_map_of_index(out@, j);
            }
            crate::cache::lemma_len_of(out@);
            crate::cache::lemma_len_of(old_es);
        }
    }

    /// Stores the pages of a file view at `now` under the key of its raw
    /// URL (see `cache_key`), and returns that key: expired views lose their
    /// pages, room is made (see `evicted`), and the view is added.
    pub fn cache_pages(&mut self, link: GitFileLink, pages: Vec<String>, now: u64) -> (key: String)
        requires
            old(self).wf(),
        ensures
            key@ == cache_key_spec(link.raw_url@),
            final(self).wf(),
            exists|cleared: Map<Seq<char>, (u64, FilePages)>, mid: Map<Seq<char>, (u64, FilePages)>|
                pages_cleared(old(self).view(), cleared, now) && evicted(
                    cleared,
                    mid,
                    FILE_CACHE_MAX_ENTRIES as nat,
                    PAGE_CACHE_TTL_SECONDS,
                    now,
                ) && final(self).view() == mid.insert(key@, (now, FilePages { link, pages })),
    {
        let key = cache_key(link.raw_url.as_str());
        self.clear_expired(now);
        let ghost cleared = self.map.view();
        proof {
            self.map.lemma_len();
        }
        self.map.evict_for_insert(FILE_CACHE_MAX_ENTRIES, PAGE_CACHE_TTL_SECONDS, now);
        let ghost mid = self.map.view();
        proof {
            lemma_evicted_bound(cleared, mid, FILE_CACHE_MAX_ENTRIES as nat, PAGE_CACHE_TTL_SECONDS, now);
            self.map.lemma_len();
        }
        let k = crate::text::to_chars(key.as_str());
        let ghost kv = k@;
        self.map.insert(k, now, FilePages { link, pages });
        proof {
            self.map.lemma_len();
            assert(self.map.view().dom() =~= mid.dom().insert(kv));
        }
        key
    }
}

/// A sequence of entries and another with the same keys, one for one,
/// denote maps with the same keys, each value taken from the same position.
proof fn lemma_map_of_same_keys<V>(a: Seq<TimedEntry<V>>, b: Seq<TimedEntry<V>>)
    requires
        a.len() == b.len(),
        forall|j: int| 0 <= j < a.len() ==> (#[trigger] b[j]).key@ == a[j].key@,
    ensures
        map_of(b).dom() == map_of(a).dom(),
    decreases a.len(),
{
    if a.len() > 0 {
        lemma_map_of_same_keys(a.drop_last(), b.drop_last());
        assert(b.last().key@ == a.last().key@);
    }
}

/// What a lookup of a file view finds.
pub enum PageLookup {
    /// No view under the key.
    Missing,
    /// The view has expired (or lost its pages): the link to fetch again.
    Refresh(GitFileLink),
    /// The page, its index (the last one when the asked index is past the
    /// end) and the number of pages.
    Page(String, usize, usize),
}

impl FileCache {
    /// Looks up `page` of the view under `key` at `now`.
    pub fn lookup(&self, key: &str, page: usize, now: u64) -> (r: PageLookup)
        requires
            self.wf(),
        ensures
            match r {
                PageLookup::Missing => !self.view().dom().contains(key@),
                PageLookup::Refresh(link) => self.view().dom().contains(key@) && (expired(
                    self.view()[key@].0,
                    now,
                ) || self.view()[key@].1.pages@.len() == 0) && link.view() == self.view()[key@].1.link.view(),
                PageLookup::Page(content, p, total) => {
                    let (stamp, fp) = self.view()[key@];
                    &&& self.view().dom().contains(key@)
                    &&& !expired(stamp, now)
                    &&& total == fp.pages@.len() && total > 0
                    &&& p == if page < total { page } else { (total - 1) as usize }
                    &&& content@ == fp.pages@[p as int]@
                },
            },
    {
        let k = crate::text::to_chars(key);
        match self.map.get(k.as_slice()) {
            None => PageLookup::Missing,
            Some((stamp, fp)) => {
                if elapsed_secs_exec(stamp, now) <= PAGE_CACHE_TTL_SECONDS && fp.pages.len() > 0 {
                    let total = fp.pages.len();
                    let p = crate::pagination::clamp_page(page, total);
                    PageLookup::Page(fp.pages[p].clone(), p, total)
                } else {
                    PageLookup::Refresh(fp.link.duplicate())
                }
            },
        }
    }

    /// Stores freshly fetched pages for the view under `key` (when it is
    /// still cached) and returns `page` of them: its text, its index (the
    /// last one when the asked index is past the end) and the number of
    /// pages. `None` when there are no pages.
    pub fn refresh(&mut self, key: &str, pages: Vec<String>, page: usize, now: u64) -> (r: Option<(String, usize, usize)>)
        requires
            old(self).wf(),
        ensures
            final(self).wf(),
            pages@.len() == 0 ==> r is None && final(self).view() == old(self).view(),
            pages@.len() > 0 ==> {
                let total = pages@.len();
                let p = if page < total { page } else { (total - 1) as usize };
                &&& r == Some((pages@[p as int], p, total as usize))
                &&& old(self).view().dom().contains(key@) ==> final(self).view() == old(self).view().insert(
                    key@,
                    (now, FilePages { link: old(self).view()[key@].1.link, pages }),
                )
                &&& !old(self).view().dom().contains(key@) ==> final(self).view() == old(self).view()
            },
    {
        if pages.len() == 0 {
            return None;
        }
        let total = pages.len();
        let p = crate::pagination::clamp_page(page, total);
        let content = pages[p].clone();
        let k = crate::text::to_chars(key);
        let ghost before = self.map.view();
        proof {
            self.map.lemma_len();
        }
        match self.map.take(k.as_slice()) {
            Some((_, fp)) => {
                let link = fp.link;
                proof {
                    self.map.lemma_len();
                }
                self.map.insert(k, now, FilePages { link, pages });
                proof {
                    self.map.lemma_len();
                    assert(self.map.view().dom() =~= before.dom());
                    assert(self.map.view() =~= before.insert(key@, (now, FilePages { link, pages })));
                }
            },
            None => {
                proof {
                    self.map.lemma_len();
                    assert(self.map.view() =~= before);
                }
            },
        }
        Some((content, p, total))
    }
}

} // verus!
