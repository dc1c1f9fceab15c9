//! Who may delete a reply of the bot, and which reply `delete` picks when
//! none is named.
use vstd::prelude::*;

verus! {

/// A recent message of a channel: its author and the author of the message
/// it replies to.
pub struct RecentMessage {
    pub author_id: u64,
    pub replied_to: Option<u64>,
}

/// A reply of the bot to a message of `invoker`.
pub open spec fn is_own_embed(m: RecentMessage, bot_id: u64, invoker: u64) -> bool {
    m.author_id == bot_id && m.replied_to == Some(invoker)
}

/// The first of the recent messages (newest first) that is the bot's reply
/// to the invoker.
pub fn latest_own_embed(recent: &[RecentMessage], bot_id: u64, invoker: u64) -> (r: Option<usize>)
    ensures
        match r {
            Some(i) => i < recent@.len() && is_own_embed(recent@[i as int], bot_id, invoker) && forall|j: int|
                0 <= j < i ==> !is_own_embed(#[trigger] recent@[j], bot_id, invoker),
            None => forall|j: int| 0 <= j < recent@.len() ==> !is_own_embed(#[trigger] recent@[j], bot_id, invoker),
        },
{
    let mut i: usize = 0;
    while i < recent.len()
        invariant
            i <= recent@.len(),
            forall|j: int| 0 <= j < i ==> !is_own_embed(#[trigger] recent@[j], bot_id, invoker),
        decreases recent@.len() - i,
    {
        let m = &recent[i];
        let replied_to_invoker = match m.replied_to {
            Some(a) => a == invoker,
            None => false,
        };
        if m.author_id == bot_id && replied_to_invoker {
            return Some(i);
        }
        i += 1;
    }
    None
}

/// Why a deletion is refused: the message is not the bot's, or the invoker
/// neither manages messages nor posted the message it answers.
pub open spec fn delete_refusal_spec(
    message_author: u64,
    bot_id: u64,
    can_manage: bool,
    original_author: Option<u64>,
    invoker: u64,
) -> Option<Seq<char>> {
    if message_author != bot_id {
        Some("That isn't one of my messages."@)
    } else if !(can_manage || original_author == Some(invoker)) {
        Some("You can only delete embeds for links you posted, unless you can manage messages here."@)
    } else {
        None
    }
}

pub fn delete_refusal(
    message_author: u64,
    bot_id: u64,
    can_manage: bool,
    original_author: Option<u64>,
    invoker: u64,
) -> (r: Option<&'static str>)
    ensures
        match r {
            Some(m) => delete_refusal_spec(message_author, bot_id, can_manage, original_author, invoker) == Some(m@),
            None => delete_refusal_spec(message_author, bot_id, can_manage, original_author, invoker) is None,
        },
{
    if message_author != bot_id {
        return Some("That isn't one of my messages.");
    }
    let posted = match original_author {
        Some(a) => a == invoker,
        None => false,
    };
    if !(can_manage || posted) {
        return Some("You can only delete embeds for links you posted, unless you can manage messages here.");
    }
    None
}

} // verus!
