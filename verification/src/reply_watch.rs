//! The replies the bot sent to link messages, watched for a short while so
//! that a reply can be removed when a moderator removes its source.
//!
//! Times are milliseconds of a monotonic clock, passed in by the caller.
use vstd::prelude::*;
use crate::cache::{TimedMap, Keep, restrict_by, REPLY_WATCH_SECONDS, REPLY_WATCH_PRUNE_THRESHOLD};
use crate::num::{decimal, decimal_exec};

verus! {

/// Where a reply went, and who wrote the message it answers.
#[derive(Clone, Copy)]
pub struct Watch {
    pub reply_id: u64,
    pub channel_id: u64,
    pub author_id: u64,
}

/// How long a watch lasts, in milliseconds.
pub open spec fn watch_millis() -> int {
    REPLY_WATCH_SECONDS * 1000
}

/// The table after watching `source_id`: when it holds the prune threshold
/// or more, the expired watches go first; the new watch expires
/// `REPLY_WATCH_SECONDS` after `now`.
pub open spec fn watched(m: Map<Seq<char>, (u64, Watch)>, source_id: u64, w: Watch, now: u64) -> Map<
    Seq<char>,
    (u64, Watch),
> {
    let kept = if m.dom().len() >= REPLY_WATCH_PRUNE_THRESHOLD {
        restrict_by(m, Keep::Unexpired, now)
    } else {
        m
    };
    kept.insert(decimal(source_id as nat), ((now + watch_millis()) as u64, w))
}

/// The watch that the deletion of message `id` at `now` finds: one that was
/// recorded and has not expired.
pub open spec fn found_watch(m: Map<Seq<char>, (u64, Watch)>, id: u64, now: u64) -> Option<Watch> {
    let k = decimal(id as nat);
    if m.dom().contains(k) && m[k].0 > now {
        Some(m[k].1)
    } else {
        None
    }
}

/// The watched replies, keyed by the decimal id of their source message;
/// each stamp is the watch's expiry time.
pub struct ReplyWatches {
    pub map: TimedMap<Watch>,
}

impl ReplyWatches {
    pub open spec fn wf(&self) -> bool {
        self.map.wf()
    }

    pub open spec fn view(&self) -> Map<Seq<char>, (u64, Watch)> {
        self.map.view()
    }

    pub fn new() -> (r: Self)
        ensures
            r.wf(),
            r.view() == Map::<Seq<char>, (u64, Watch)>::empty(),
    {
        ReplyWatches { map: TimedMap::new() }
    }

    /// Watches the reply to message `source_id`.
    pub fn watch(&mut self, source_id: u64, w: Watch, now: u64)
        requires
            old(self).wf(),
            now + watch_millis() <= u64::MAX,
        ensures
            final(self).wf(),
            final(self).view() == watched(old(self).view(), source_id, w, now),
    {
        if self.map.len() >= REPLY_WATCH_PRUNE_THRESHOLD {
            self.map.retain(&Keep::Unexpired, now);
        }
        let key = decimal_exec(source_id);
        self.map.insert(key, now + REPLY_WATCH_SECONDS * 1000, w);
    }

    /// Ends the watch on message `id`, which was deleted at `now`, and hands
    /// back the watch if it had not expired.
    pub fn take(&mut self, id: u64, now: u64) -> (r: Option<Watch>)
        requires
            old(self).wf(),
        ensures
            final(self).wf(),
            final(self).view() == old(self).view().remove(decimal(id as nat)),
            r == found_watch(old(self).view(), id, now),
    {
        let key = decimal_exec(id);
        match self.map.take(key.as_slice()) {
            Some((expires, w)) => if expires > now {
                Some(w)
            } else {
                None
            },
            None => None,
        }
    }
}

/// A deletion found within the watch window gives back what was watched, and
/// once taken, a watch is not found again.
pub proof fn lemma_watch_then_take(m: Map<Seq<char>, (u64, Watch)>, source_id: u64, w: Watch, now: u64, later: u64)
    requires
        now + watch_millis() <= u64::MAX,
        later < now + watch_millis(),
    ensures
        found_watch(watched(m, source_id, w, now), source_id, later) == Some(w),
        found_watch(watched(m, source_id, w, now).remove(decimal(source_id as nat)), source_id, later) is None,
{
}

/// A watch on another message is untouched by a new watch.
pub proof fn lemma_watch_keeps_others(m: Map<Seq<char>, (u64, Watch)>, source_id: u64, other: u64, w: Watch, now: u64)
    requires
        source_id != other,
        m.dom().len() < REPLY_WATCH_PRUNE_THRESHOLD,
    ensures
        found_watch(watched(m, source_id, w, now), other, now) == found_watch(m, other, now),
{
    crate::num::lemma_decimal_injective(source_id, other);
}

/// One audit-log entry of a message deletion.
pub struct AuditEntry {
    /// The author of the deleted message.
    pub target_id: Option<u64>,
    pub channel_id: Option<u64>,
    /// Who deleted it.
    pub user_id: Option<u64>,
    /// When the entry was made, in seconds.
    pub created_at: i64,
}

/// The entry records, less than two minutes before `now` (seconds), that
/// someone other than `author_id` deleted a message of theirs in `channel_id`.
pub open spec fn entry_shows_removal(e: AuditEntry, author_id: u64, channel_id: u64, now: i64) -> bool {
    &&& e.target_id == Some(author_id)
    &&& e.channel_id == Some(channel_id)
    &&& e.user_id != Some(author_id)
    &&& 0 <= now - e.created_at < 120
}

/// Whether the audit log shows the source message removed by someone other
/// than its author.
pub fn deleted_by_other(entries: &[AuditEntry], author_id: u64, channel_id: u64, now: i64) -> (r: bool)
    ensures
        r == exists|i: int| 0 <= i < entries@.len() && entry_shows_removal(#[trigger] entries@[i], author_id, channel_id, now),
{
    let mut i: usize = 0;
    while i < entries.len()
        invariant
            0 <= i <= entries@.len(),
            forall|j: int| 0 <= j < i ==> !entry_shows_removal(#[trigger] entries@[j], author_id, channel_id, now),
        decreases entries@.len() - i,
    {
        let e = &entries[i];
        let age: i128 = now as i128 - e.created_at as i128;
        let target_matches = match e.target_id {
            Some(t) => t == author_id,
            None => false,
        };
        let channel_matches = match e.channel_id {
            Some(c) => c == channel_id,
            None => false,
        };
        let by_other = match e.user_id {
            Some(u) => u != author_id,
            None => true,
        };
        if target_matches && channel_matches && by_other && 0 <= age && age < 120 {
            assert(entry_shows_removal(entries@[i as int], author_id, channel_id, now));
            return true;
        }
        i += 1;
    }
    false
}

} // verus!
