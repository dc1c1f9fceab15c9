//! Maps whose entries carry the time they were written, and the bounded,
//! self-expiring tables built on them: rate limits, handled messages,
//! report de-duplication and the cache of rendered diffs.
//!
//! Time is a millisecond counter that the caller reads from a monotonic
//! clock and passes in; an entry's age is counted in whole seconds, as
//! `Instant::elapsed().as_secs()` counts it.
use vstd::prelude::*;
use crate::text::{eq_exec, to_chars, append, append_str};
use crate::num::{decimal, decimal_exec};

verus! {

/// Whole seconds from `stamp` to `now` (0 when `now` is earlier).
pub open spec fn elapsed_secs(stamp: u64, now: u64) -> nat {
    if now >= stamp {
        ((now - stamp) / 1000) as nat
    } else {
        0
    }
}

pub fn elapsed_secs_exec(stamp: u64, now: u64) -> (r: u64)
    ensures
        r as nat == elapsed_secs(stamp, now),
{
    if now >= stamp {
        (now - stamp) / 1000
    } else {
        0
    }
}

pub struct TimedEntry<V> {
    pub key: Vec<char>,
    pub stamp: u64,
    pub value: V,
}

/// A map from text keys to stamped values, kept as a vector without
/// repeated keys.
pub struct TimedMap<V> {
    pub entries: Vec<TimedEntry<V>>,
}

/// The map that a sequence of entries denotes (a later entry would win, but
/// well-formed maps hold no repeated key).
pub open spec fn map_of<V>(es: Seq<TimedEntry<V>>) -> Map<Seq<char>, (u64, V)>
    decreases es.len(),
{
    if es.len() == 0 {
        Map::empty()
    } else {
        map_of(es.drop_last()).insert(es.last().key@, (es.last().stamp, es.last().value))
    }
}

pub open spec fn keys_distinct<V>(es: Seq<TimedEntry<V>>) -> bool {
    forall|i: int, j: int|
        0 <= i < es.len() && 0 <= j < es.len() && i != j ==> #[trigger] es[i].key@ != #[trigger] es[j].key@
}

/// Which entries a sweep keeps.
pub enum Keep {
    /// Entries at most this many seconds old (the stamp is the write time).
    Fresh(u64),
    /// Entries whose stamp, an expiry time, is still ahead of now.
    Unexpired,
}

pub open spec fn keeps(rule: Keep, stamp: u64, now: u64) -> bool {
    match rule {
        Keep::Fresh(ttl) => elapsed_secs(stamp, now) <= ttl,
        Keep::Unexpired => stamp > now,
    }
}

/// The entries of `m` that the rule keeps.
pub open spec fn restrict_by<V>(m: Map<Seq<char>, (u64, V)>, rule: Keep, now: u64) -> Map<
    Seq<char>,
    (u64, V),
> {
    Map::new(|k: Seq<char>| m.dom().contains(k) && keeps(rule, m[k].0, now), |k: Seq<char>| m[k])
}

fn keeps_exec(rule: &Keep, stamp: u64, now: u64) -> (r: bool)
    ensures
        r == keeps(*rule, stamp, now),
{
    match rule {
        Keep::Fresh(ttl) => elapsed_secs_exec(stamp, now) <= *ttl,
        Keep::Unexpired => stamp > now,
    }
}

/// `k` has a smallest stamp among the keys of `m`.
pub open spec fn is_oldest<V>(m: Map<Seq<char>, (u64, V)>, k: Seq<char>) -> bool {
    m.dom().contains(k) && forall|j: Seq<char>| #[trigger] m.dom().contains(j) ==> m[k].0 <= m[j].0
}

pub proof fn lemma_map_of_dom<V>(es: Seq<TimedEntry<V>>)
    ensures
        forall|k: Seq<char>|
            #[trigger] map_of(es).dom().contains(k) <==> exists|i: int| 0 <= i < es.len() && es[i].key@ == k,
        map_of(es).dom().finite(),
    decreases es.len(),
{
    if es.len() > 0 {
        lemma_map_of_dom(es.drop_last());
        assert forall|k: Seq<char>|
            #[trigger] map_of(es).dom().contains(k) <==> exists|i: int| 0 <= i < es.len() && es[i].key@ == k by {
            if map_of(es).dom().contains(k) {
                if k == es.last().key@ {
                    assert(es[es.len() - 1].key@ == k);
                } else {
                    let i = choose|i: int| 0 <= i < es.drop_last().len() && es.drop_last()[i].key@ == k;
                    assert(es[i].key@ == k);
                }
            }
            if exists|i: int| 0 <= i < es.len() && es[i].key@ == k {
                let i = choose|i: int| 0 <= i < es.len() && es[i].key@ == k;
                if i < es.len() - 1 {
                    assert(es.drop_last()[i].key@ == k);
                }
            }
        }
    }
}

/// In a map without repeated keys, the value of each entry's key is that entry.
pub proof fn lemma_map_of_index<V>(es: Seq<TimedEntry<V>>, i: int)
    requires
        keys_distinct(es),
        0 <= i < es.len(),
    ensures
        map_of(es).dom().contains(es[i].key@),
        map_of(es)[es[i].key@] == (es[i].stamp, es[i].value),
    decreases es.len(),
{
    if i < es.len() - 1 {
        assert(keys_distinct(es.drop_last()));
        assert(es.drop_last()[i] == es[i]);
        lemma_map_of_index(es.drop_last(), i);
        assert(es[es.len() - 1].key@ != es[i].key@);
    }
}

pub proof fn lemma_map_of_remove<V>(es: Seq<TimedEntry<V>>, i: int)
    requires
        keys_distinct(es),
        0 <= i < es.len(),
    ensures
        map_of(es.remove(i)) == map_of(es).remove(es[i].key@),
        keys_distinct(es.remove(i)),
    decreases es.len(),
{
    let r = es.remove(i);
    assert forall|a: int, b: int|
        0 <= a < r.len() && 0 <= b < r.len() && a != b implies #[trigger] r[a].key@ != #[trigger] r[b].key@ by {
        let a2 = if a < i { a } else { a + 1 };
        let b2 = if b < i { b } else { b + 1 };
        assert(r[a] == es[a2]);
        assert(r[b] == es[b2]);
    }
    if i == es.len() - 1 {
        assert(r =~= es.drop_last());
        lemma_map_of_dom(es.drop_last());
        assert(!map_of(es.drop_last()).dom().contains(es[i].key@)) by {
            if map_of(es.drop_last()).dom().contains(es[i].key@) {
                let j = choose|j: int| 0 <= j < es.drop_last().len() && es.drop_last()[j].key@ == es[i].key@;
                assert(es[j].key@ == es[i].key@);
            }
        }
        assert(map_of(es).remove(es[i].key@) =~= map_of(es.drop_last()));
    } else {
        let d = es.drop_last();
        assert(keys_distinct(d));
        assert(d[i] == es[i]);
        lemma_map_of_remove(d, i);
        assert(r.drop_last() =~= d.remove(i));
        assert(r.last() == es.last());
        assert(es.last().key@ != es[i].key@);
        assert(map_of(r) =~= map_of(es).remove(es[i].key@));
    }
}

pub proof fn lemma_map_of_push_new<V>(es: Seq<TimedEntry<V>>, e: TimedEntry<V>)
    requires
        keys_distinct(es),
        !map_of(es).dom().contains(e.key@),
    ensures
        map_of(es.push(e)) == map_of(es).insert(e.key@, (e.stamp, e.value)),
        keys_distinct(es.push(e)),
{
    assert(es.push(e).drop_last() =~= es);
    lemma_map_of_dom(es);
    let p = es.push(e);
    assert forall|a: int, b: int|
        0 <= a < p.len() && 0 <= b < p.len() && a != b implies #[trigger] p[a].key@ != #[trigger] p[b].key@ by {
        if a == es.len() {
            assert(p[b] == es[b]);
        } else if b == es.len() {
            assert(p[a] == es[a]);
        } else {
            assert(p[a] == es[a]);
            assert(p[b] == es[b]);
        }
    }
}

impl<V> TimedMap<V> {
    pub open spec fn view(&self) -> Map<Seq<char>, (u64, V)> {
        map_of(self.entries@)
    }

    pub open spec fn wf(&self) -> bool {
        keys_distinct(self.entries@)
    }

    pub open spec fn len_spec(&self) -> nat {
        self.entries@.len()
    }

    pub fn new() -> (r: Self)
        ensures
            r.wf(),
            r.view() == Map::<Seq<char>, (u64, V)>::empty(),
            r.len_spec() == 0,
    {
        TimedMap { entries: Vec::new() }
    }

    pub fn len(&self) -> (r: usize)
        requires
            self.wf(),
        ensures
            r == self.len_spec(),
            r == self.view().dom().len(),
    {
        proof {
            self.lemma_len();
        }
        self.entries.len()
    }

    pub proof fn lemma_len(&self)
        requires
            self.wf(),
        ensures
            self.view().dom().len() == self.len_spec(),
            self.view().dom().finite(),
        decreases self.entries@.len(),
    {
        lemma_len_of(self.entries@);
    }

    /// Position of `key`, if present.
    pub fn index_of(&self, key: &[char]) -> (r: Option<usize>)
        requires
            self.wf(),
        ensures
            match r {
                Some(i) => i < self.entries@.len() && self.entries@[i as int].key@ == key@,
                None => !self.view().dom().contains(key@),
            },
    {
        let mut i: usize = 0;
        while i < self.entries.len()
            invariant
                i <= self.entries@.len(),
                forall|j: int| 0 <= j < i ==> self.entries@[j].key@ != key@,
            decreases self.entries@.len() - i,
        {
            if eq_exec(self.entries[i].key.as_slice(), key) {
                return Some(i);
            }
            i += 1;
        }
        proof {
            lemma_map_of_dom(self.entries@);
        }
        None
    }

    /// The stamp and value stored under `key`.
    pub fn get(&self, key: &[char]) -> (r: Option<(u64, &V)>)
        requires
            self.wf(),
        ensures
            match r {
                Some((s, v)) => self.view().dom().contains(key@) && self.view()[key@] == (s, *v),
                None => !self.view().dom().contains(key@),
            },
    {
        match self.index_of(key) {
            Some(i) => {
                proof {
                    lemma_map_of_index(self.entries@, i as int);
                }
                Some((self.entries[i].stamp, &self.entries[i].value))
            },
            None => None,
        }
    }

    /// Removes `key` if present.
    pub fn remove(&mut self, key: &[char])
        requires
            old(self).wf(),
        ensures
            final(self).wf(),
            final(self).view() == old(self).view().remove(key@),
    {
        match self.index_of(key) {
            Some(i) => {
                proof {
                    lemma_map_of_remove(self.entries@, i as int);
                }
                self.entries.remove(i);
            },
            None => {
                assert(self.view().remove(key@) =~= self.view());
            },
        }
    }

    /// Removes `key` and hands back its stamp and value, if present.
    pub fn take(&mut self, key: &[char]) -> (r: Option<(u64, V)>)
        requires
            old(self).wf(),
        ensures
            final(self).wf(),
            final(self).view() == old(self).view().remove(key@),
            match r {
                Some((s, v)) => old(self).view().dom().contains(key@) && old(self).view()[key@] == (s, v),
                None => !old(self).view().dom().contains(key@),
            },
    {
        match self.index_of(key) {
            Some(i) => {
                proof {
                    lemma_map_of_index(self.entries@, i as int);
                    lemma_map_of_remove(self.entries@, i as int);
                }
                let e = self.entries.remove(i);
                Some((e.stamp, e.value))
            },
            None => {
                assert(self.view().remove(key@) =~= self.view());
                None
            },
        }
    }

    /// Stores `value` under `key` with stamp `stamp`, replacing any previous entry.
    pub fn insert(&mut self, key: Vec<char>, stamp: u64, value: V)
        requires
            old(self).wf(),
        ensures
            final(self).wf(),
            final(self).view() == old(self).view().insert(key@, (stamp, value)),
    {
        self.remove(key.as_slice());
        let ghost before = self.entries@;
        let e = TimedEntry { key, stamp, value };
        proof {
            lemma_map_of_push_new(before, e);
        }
        self.entries.push(e);
        assert(self.entries@ =~= before.push(e));
    }

    /// Keeps only the entries that `rule` keeps at `now`.
    pub fn retain(&mut self, rule: &Keep, now: u64)
        requires
            old(self).wf(),
        ensures
            final(self).wf(),
            final(self).view() == restrict_by(old(self).view(), *rule, now),
    {
        let ghost old_es = self.entries@;
        let mut kept: Vec<TimedEntry<V>> = Vec::new();
        let mut src: Vec<TimedEntry<V>> = Vec::new();
        std::mem::swap(&mut src, &mut self.entries);
        let ghost n = old_es.len();
        let mut rest: Vec<TimedEntry<V>> = Vec::new();
        while src.len() > 0
            invariant
                n == old_es.len(),
                src@.len() <= n,
                src@ =~= old_es.take(src@.len() as int),
                rest@ =~= old_es.subrange(src@.len() as int, n as int).reverse(),
            decreases src@.len(),
        {
            let e = src.pop().unwrap();
            rest.push(e);
        }
        while rest.len() > 0
            invariant
                keys_distinct(old_es),
                n == old_es.len(),
                rest@.len() <= n,
                rest@ =~= old_es.subrange(n - rest@.len(), n as int).reverse(),
                keys_distinct(kept@),
                map_of(kept@) == restrict_by(map_of(old_es.take(n - rest@.len())), *rule, now),
            decreases rest@.len(),
        {
            let ghost k = n - rest@.len();
            let e = rest.pop().unwrap();
            assert(e == old_es[k]);
            proof {
                assert(old_es.take(k + 1) =~= old_es.take(k).push(old_es[k]));
                assert(old_es.take(k + 1).drop_last() =~= old_es.take(k));
                lemma_map_of_dom(old_es.take(k));
                assert(!map_of(old_es.take(k)).dom().contains(e.key@)) by {
                    if map_of(old_es.take(k)).dom().contains(e.key@) {
                        let j = choose|j: int| 0 <= j < old_es.take(k).len() && old_es.take(k)[j].key@ == e.key@;
                        assert(old_es[j].key@ == old_es[k].key@);
                    }
                }
                lemma_map_of_dom(kept@);
                assert(rest@ =~= old_es.subrange(n - rest@.len(), n as int).reverse());
            }
            if keeps_exec(rule, e.stamp, now) {
                proof {
                    lemma_map_of_push_new(kept@, e);
                    assert(restrict_by(map_of(old_es.take(k + 1)), *rule, now) =~= restrict_by(
                        map_of(old_es.take(k)),
                        *rule,
                        now,
                    ).insert(e.key@, (e.stamp, e.value)));
                }
                kept.push(e);
            } else {
                assert(restrict_by(map_of(old_es.take(k + 1)), *rule, now) =~= restrict_by(
                    map_of(old_es.take(k)),
                    *rule,
                    now,
                ));
            }
        }
        assert(old_es.take(n as int) =~= old_es);
        self.entries = kept;
    }

    /// Removes one entry with the smallest stamp, when there is any.
    pub fn remove_oldest(&mut self)
        requires
            old(self).wf(),
        ensures
            final(self).wf(),
            old(self).view().dom().len() > 0 ==> exists|k: Seq<char>|
                is_oldest(old(self).view(), k) && final(self).view() == old(self).view().remove(k),
            old(self).view().dom().len() == 0 ==> final(self).view() == old(self).view(),
    {
        proof {
            self.lemma_len();
        }
        if self.entries.len() == 0 {
            return;
        }
        let mut best: usize = 0;
        let mut i: usize = 1;
        while i < self.entries.len()
            invariant
                1 <= i <= self.entries@.len(),
                best < i,
                forall|j: int| 0 <= j < i ==> self.entries@[best as int].stamp <= #[trigger] self.entries@[j].stamp,
            decreases self.entries@.len() - i,
        {
            if self.entries[i].stamp < self.entries[best].stamp {
                best = i;
            }
            i += 1;
        }
        let ghost es = self.entries@;
        let ghost k = es[best as int].key@;
        proof {
            lemma_map_of_index(es, best as int);
            lemma_map_of_dom(es);
            assert forall|j: Seq<char>| #[trigger] map_of(es).dom().contains(j) implies map_of(es)[k].0 <= map_of(es)[j].0 by {
                let t = choose|t: int| 0 <= t < es.len() && es[t].key@ == j;
                lemma_map_of_index(es, t);
            }
            lemma_map_of_remove(es, best as int);
        }
        self.entries.remove(best);
        assert(is_oldest(map_of(es), k));
    }
}

pub proof fn lemma_len_of<V>(es: Seq<TimedEntry<V>>)
    requires
        keys_distinct(es),
    ensures
        map_of(es).dom().len() == es.len(),
        map_of(es).dom().finite(),
    decreases es.len(),
{
    lemma_map_of_dom(es);
    if es.len() > 0 {
        let d = es.drop_last();
        assert(keys_distinct(d));
        lemma_len_of(d);
        lemma_map_of_dom(d);
        assert(!map_of(d).dom().contains(es.last().key@)) by {
            if map_of(d).dom().contains(es.last().key@) {
                let j = choose|j: int| 0 <= j < d.len() && d[j].key@ == es.last().key@;
                assert(es[j].key@ == es[es.len() - 1].key@);
            }
        }
    }
}


/// What `evict_for_insert` leaves: nothing changes below `max_entries`
/// entries; otherwise the entries older than `ttl` seconds go, and if that
/// still leaves `max_entries` or more, one entry with the oldest stamp goes
/// too.
pub open spec fn evicted<V>(
    before: Map<Seq<char>, (u64, V)>,
    after: Map<Seq<char>, (u64, V)>,
    max_entries: nat,
    ttl: u64,
    now: u64,
) -> bool {
    if before.dom().len() < max_entries {
        after == before
    } else {
        let f = restrict_by(before, Keep::Fresh(ttl), now);
        if f.dom().len() < max_entries || f.dom().len() == 0 {
            after == f
        } else {
            exists|k: Seq<char>| is_oldest(f, k) && after == f.remove(k)
        }
    }
}

impl<V> TimedMap<V> {
    /// Makes room before an insertion (see `evicted`).
    pub fn evict_for_insert(&mut self, max_entries: usize, ttl: u64, now: u64)
        requires
            old(self).wf(),
        ensures
            final(self).wf(),
            evicted(old(self).view(), final(self).view(), max_entries as nat, ttl, now),
    {
        if self.len() < max_entries {
            return;
        }
        self.retain(&Keep::Fresh(ttl), now);
        if self.len() >= max_entries {
            proof {
                self.lemma_len();
            }
            self.remove_oldest();
        }
    }
}

/// After an eviction, adding one key keeps the map within `max_entries`.
pub proof fn lemma_evicted_bound<V>(
    before: Map<Seq<char>, (u64, V)>,
    after: Map<Seq<char>, (u64, V)>,
    max_entries: nat,
    ttl: u64,
    now: u64,
)
    requires
        evicted(before, after, max_entries, ttl, now),
        before.dom().finite(),
        before.dom().len() <= max_entries,
        max_entries > 0,
    ensures
        after.dom().finite(),
        after.dom().len() < max_entries,
{
    let f = restrict_by(before, Keep::Fresh(ttl), now);
    assert(f.dom().subset_of(before.dom()));
    vstd::set_lib::lemma_len_subset(f.dom(), before.dom());
    if before.dom().len() >= max_entries && f.dom().len() >= max_entries {
        let k = choose|k: Seq<char>| is_oldest(f, k) && after == f.remove(k);
        assert(after.dom() =~= f.dom().remove(k));
    }
}


pub const RATE_LIMIT_SECONDS: u64 = 10;
pub const MAX_RATE_LIMIT_ENTRIES: usize = 10_000;
pub const HANDLED_MESSAGE_TTL_SECONDS: u64 = 3600;
pub const MAX_HANDLED_MESSAGE_ENTRIES: usize = 10_000;
pub const REPORT_DEDUP_SECONDS: u64 = 600;
pub const MAX_REPORT_DEDUP_ENTRIES: usize = 1000;
pub const DIFF_CACHE_TTL_SECONDS: u64 = 600;
pub const DIFF_CACHE_MAX_ENTRIES: usize = 1000;
pub const REPLY_WATCH_SECONDS: u64 = 60;
pub const REPLY_WATCH_PRUNE_THRESHOLD: usize = 256;

/// A key is let through when it was not let through in the last `window`
/// seconds.
pub open spec fn throttle_allows(m: Map<Seq<char>, (u64, ())>, key: Seq<char>, now: u64, window: u64) -> bool {
    !(m.dom().contains(key) && elapsed_secs(m[key].0, now) < window)
}

/// Lets a key through at most once per window; a let-through key is
/// recorded with the current time.
pub struct Throttle {
    pub map: TimedMap<()>,
    pub window: u64,
    pub max_entries: usize,
}

impl Throttle {
    pub open spec fn wf(&self) -> bool {
        self.map.wf() && self.max_entries > 0 && self.map.len_spec() <= self.max_entries
    }

    pub fn new(window: u64, max_entries: usize) -> (r: Self)
        requires
            max_entries > 0,
        ensures
            r.wf(),
            r.map.view() == Map::<Seq<char>, (u64, ())>::empty(),
            r.window == window,
            r.max_entries == max_entries,
    {
        Throttle { map: TimedMap::new(), window, max_entries }
    }

    /// Whether `key` may pass at `now`; when it may, it is recorded.
    pub fn allow(&mut self, key: Vec<char>, now: u64) -> (r: bool)
        requires
            old(self).wf(),
        ensures
            final(self).wf(),
            final(self).window == old(self).window,
            final(self).max_entries == old(self).max_entries,
            r == throttle_allows(old(self).map.view(), key@, now, old(self).window),
            r ==> final(self).map.view().dom().contains(key@) && final(self).map.view()[key@].0 == now,
            r ==> exists|mid: Map<Seq<char>, (u64, ())>|
                evicted(old(self).map.view(), mid, old(self).max_entries as nat, old(self).window, now)
                    && final(self).map.view() == mid.insert(key@, (now, ())),
            !r ==> final(self).map.view() == old(self).map.view(),
    {
        if let Some((stamp, _)) = self.map.get(key.as_slice()) {
            if elapsed_secs_exec(stamp, now) < self.window {
                return false;
            }
        }
        let ghost before = self.map.view();
        proof {
            self.map.lemma_len();
        }
        let window = self.window;
        let max = self.max_entries;
        self.map.evict_for_insert(max, window, now);
        let ghost mid = self.map.view();
        proof {
            lemma_evicted_bound(before, mid, max as nat, window, now);
            self.map.lemma_len();
        }
        self.map.insert(key, now, ());
        proof {
            self.map.lemma_len();
            assert(self.map.view().dom() =~= mid.dom().insert(key@));
        }
        true
    }
}


/// The key under which a user's use of one handler is rate limited.
pub open spec fn rate_key(user_id: u64, handler: Seq<char>) -> Seq<char> {
    decimal(user_id as nat) + ":"@ + handler
}

/// The key under which one failure report is de-duplicated.
pub open spec fn report_key(scope: Seq<char>, service: Seq<char>, code: Seq<char>) -> Seq<char> {
    scope + ":"@ + service + ":"@ + code
}

/// Per-user, per-handler rate limiting: one use per `RATE_LIMIT_SECONDS`.
pub struct RateLimiter {
    pub throttle: Throttle,
}

impl RateLimiter {
    pub open spec fn wf(&self) -> bool {
        self.throttle.wf() && self.throttle.window == RATE_LIMIT_SECONDS && self.throttle.max_entries
            == MAX_RATE_LIMIT_ENTRIES
    }

    pub open spec fn view(&self) -> Map<Seq<char>, (u64, ())> {
        self.throttle.map.view()
    }

    pub fn new() -> (r: Self)
        ensures
            r.wf(),
            r.view() == Map::<Seq<char>, (u64, ())>::empty(),
    {
        RateLimiter { throttle: Throttle::new(RATE_LIMIT_SECONDS, MAX_RATE_LIMIT_ENTRIES) }
    }

    /// Whether `user_id` may use `handler` at `now`; a use that is let
    /// through is recorded.
    pub fn check_rate_limit(&mut self, user_id: u64, handler: &str, now: u64) -> (r: bool)
        requires
            old(self).wf(),
        ensures
            final(self).wf(),
            r == throttle_allows(old(self).view(), rate_key(user_id, handler@), now, RATE_LIMIT_SECONDS),
            r ==> final(self).view().dom().contains(rate_key(user_id, handler@))
                && final(self).view()[rate_key(user_id, handler@)].0 == now,
            r ==> exists|mid: Map<Seq<char>, (u64, ())>|
                evicted(old(self).view(), mid, MAX_RATE_LIMIT_ENTRIES as nat, RATE_LIMIT_SECONDS, now)
                    && final(self).view() == mid.insert(rate_key(user_id, handler@), (now, ())),
            !r ==> final(self).view() == old(self).view(),
    {
        let mut key = decimal_exec(user_id);
        append_str(&mut key, ":");
        append_str(&mut key, handler);
        self.throttle.allow(key, now)
    }
}

/// De-duplication of failure reports: one report per scope, service and
/// failure code every `REPORT_DEDUP_SECONDS`.
pub struct ReportDedup {
    pub throttle: Throttle,
}

impl ReportDedup {
    pub open spec fn wf(&self) -> bool {
        self.throttle.wf() && self.throttle.window == REPORT_DEDUP_SECONDS && self.throttle.max_entries
            == MAX_REPORT_DEDUP_ENTRIES
    }

    pub open spec fn view(&self) -> Map<Seq<char>, (u64, ())> {
        self.throttle.map.view()
    }

    pub fn new() -> (r: Self)
        ensures
            r.wf(),
            r.view() == Map::<Seq<char>, (u64, ())>::empty(),
    {
        ReportDedup { throttle: Throttle::new(REPORT_DEDUP_SECONDS, MAX_REPORT_DEDUP_ENTRIES) }
    }

    /// Whether a failure should be reported now; a report that goes out is
    /// recorded.
    pub fn should_report(&mut self, scope: &str, service: &str, code: &str, now: u64) -> (r: bool)
        requires
            old(self).wf(),
        ensures
            final(self).wf(),
            r == throttle_allows(old(self).view(), report_key(scope@, service@, code@), now, REPORT_DEDUP_SECONDS),
            r ==> final(self).view().dom().contains(report_key(scope@, service@, code@))
                && final(self).view()[report_key(scope@, service@, code@)].0 == now,
            r ==> exists|mid: Map<Seq<char>, (u64, ())>|
                evicted(old(self).view(), mid, MAX_REPORT_DEDUP_ENTRIES as nat, REPORT_DEDUP_SECONDS, now)
                    && final(self).view() == mid.insert(report_key(scope@, service@, code@), (now, ())),
            !r ==> final(self).view() == old(self).view(),
    {
        let mut key = to_chars(scope);
        append_str(&mut key, ":");
        append_str(&mut key, service);
        append_str(&mut key, ":");
        append_str(&mut key, code);
        self.throttle.allow(key, now)
    }
}

/// Whether a message id was marked handled less than the time-to-live ago.
pub open spec fn was_handled_spec(m: Map<Seq<char>, (u64, ())>, id: u64, now: u64) -> bool {
    m.dom().contains(decimal(id as nat)) && elapsed_secs(m[decimal(id as nat)].0, now)
        < HANDLED_MESSAGE_TTL_SECONDS
}

/// The messages that a link handler has already answered.
pub struct HandledMessages {
    pub map: TimedMap<()>,
}

impl HandledMessages {
    pub open spec fn wf(&self) -> bool {
        self.map.wf() && self.map.len_spec() <= MAX_HANDLED_MESSAGE_ENTRIES
    }

    pub open spec fn view(&self) -> Map<Seq<char>, (u64, ())> {
        self.map.view()
    }

    pub fn new() -> (r: Self)
        ensures
            r.wf(),
            r.view() == Map::<Seq<char>, (u64, ())>::empty(),
    {
        HandledMessages { map: TimedMap::new() }
    }

    /// Records that message `id` was answered at `now`.
    pub fn mark_message_handled(&mut self, id: u64, now: u64)
        requires
            old(self).wf(),
        ensures
            final(self).wf(),
            exists|mid: Map<Seq<char>, (u64, ())>|
                evicted(old(self).view(), mid, MAX_HANDLED_MESSAGE_ENTRIES as nat, HANDLED_MESSAGE_TTL_SECONDS, now)
                    && final(self).view() == mid.insert(decimal(id as nat), (now, ())),
    {
        let ghost before = self.map.view();
        proof {
            self.map.lemma_len();
        }
        self.map.evict_for_insert(MAX_HANDLED_MESSAGE_ENTRIES, HANDLED_MESSAGE_TTL_SECONDS, now);
        let ghost mid = self.map.view();
        proof {
            lemma_evicted_bound(before, mid, MAX_HANDLED_MESSAGE_ENTRIES as nat, HANDLED_MESSAGE_TTL_SECONDS, now);
            self.map.lemma_len();
        }
        let key = decimal_exec(id);
        self.map.insert(key, now, ());
        proof {
            self.map.lemma_len();
            assert(self.map.view().dom() =~= mid.dom().insert(decimal(id as nat)));
        }
    }

    /// Whether message `id` was answered less than the time-to-live ago.
    pub fn was_message_handled(&self, id: u64, now: u64) -> (r: bool)
        requires
            self.wf(),
        ensures
            r == was_handled_spec(self.view(), id, now),
    {
        let key = decimal_exec(id);
        match self.map.get(key.as_slice()) {
            Some((stamp, _)) => elapsed_secs_exec(stamp, now) < HANDLED_MESSAGE_TTL_SECONDS,
            None => false,
        }
    }
}

/// A copy of a list of strings.
pub fn clone_strings(v: &Vec<String>) -> (r: Vec<String>)
    ensures
        r@ == v@,
{
    let mut r: Vec<String> = Vec::new();
    let mut i: usize = 0;
    while i < v.len()
        invariant
            i <= v@.len(),
            r@ == v@.take(i as int),
        decreases v@.len() - i,
    {
        r.push(v[i].clone());
        assert(v@.take(i + 1) =~= v@.take(i as int).push(v@[i as int]));
        i += 1;
    }
    assert(v@.take(v@.len() as int) =~= v@);
    r
}

/// Rendered diff pages by cache key, kept `DIFF_CACHE_TTL_SECONDS`.
pub struct DiffCache {
    pub map: TimedMap<Vec<String>>,
}

/// The cached pages under `key`, when they are not older than the
/// time-to-live.
pub open spec fn cached_pages(m: Map<Seq<char>, (u64, Vec<String>)>, key: Seq<char>, now: u64) -> Option<Seq<String>> {
    if m.dom().contains(key) && elapsed_secs(m[key].0, now) <= DIFF_CACHE_TTL_SECONDS {
        Some(m[key].1@)
    } else {
        None
    }
}

impl DiffCache {
    pub open spec fn wf(&self) -> bool {
        self.map.wf() && self.map.len_spec() <= DIFF_CACHE_MAX_ENTRIES
    }

    pub open spec fn view(&self) -> Map<Seq<char>, (u64, Vec<String>)> {
        self.map.view()
    }

    pub fn new() -> (r: Self)
        ensures
            r.wf(),
            r.view() == Map::<Seq<char>, (u64, Vec<String>)>::empty(),
    {
        DiffCache { map: TimedMap::new() }
    }

    /// The pages cached under `key` if still fresh; an expired entry is
    /// dropped.
    pub fn get_cached_responses(&mut self, key: &[char], now: u64) -> (r: Option<Vec<String>>)
        requires
            old(self).wf(),
        ensures
            final(self).wf(),
            match r {
                Some(v) => cached_pages(old(self).view(), key@, now) == Some(v@),
                None => cached_pages(old(self).view(), key@, now) is None,
            },
            r is Some ==> final(self).view() == old(self).view(),
            r is None ==> final(self).view() == old(self).view().remove(key@),
    {
        match self.map.get(key) {
            Some((stamp, pages)) => {
                if elapsed_secs_exec(stamp, now) <= DIFF_CACHE_TTL_SECONDS {
                    return Some(clone_strings(pages));
                }
            },
            None => {
                assert(self.view().remove(key@) =~= self.view());
                return None;
            },
        }
        proof {
            self.map.lemma_len();
        }
        self.map.remove(key);
        proof {
            self.map.lemma_len();
            vstd::set_lib::lemma_len_subset(self.map.view().dom(), old(self).map.view().dom());
        }
        None
    }

    /// Stores pages under `key` at `now`, first making room (see `evicted`).
    pub fn cache_responses(&mut self, key: Vec<char>, responses: Vec<String>, now: u64)
        requires
            old(self).wf(),
        ensures
            final(self).wf(),
            exists|mid: Map<Seq<char>, (u64, Vec<String>)>|
                evicted(old(self).view(), mid, DIFF_CACHE_MAX_ENTRIES as nat, DIFF_CACHE_TTL_SECONDS, now)
                    && final(self).view() == mid.insert(key@, (now, responses)),
    {
        let ghost before = self.map.view();
        proof {
            self.map.lemma_len();
        }
        self.map.evict_for_insert(DIFF_CACHE_MAX_ENTRIES, DIFF_CACHE_TTL_SECONDS, now);
        let ghost mid = self.map.view();
        proof {
            lemma_evicted_bound(before, mid, DIFF_CACHE_MAX_ENTRIES as nat, DIFF_CACHE_TTL_SECONDS, now);
            self.map.lemma_len();
        }
        let ghost k = key@;
        self.map.insert(key, now, responses);
        proof {
            self.map.lemma_len();
            assert(self.map.view().dom() =~= mid.dom().insert(k));
        }
    }
}

}
