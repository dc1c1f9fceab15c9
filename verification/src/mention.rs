//! Answering a message that only mentions the bot.
use vstd::prelude::*;
use crate::text::{append, append_str, eq_exec, from_chars, to_chars, trim, trim_exec};
use crate::num::{decimal, decimal_exec};

verus! {

/// The two ways a mention of user `id` is written.
pub open spec fn mention_forms(id: u64) -> (Seq<char>, Seq<char>) {
    ("<@"@ + decimal(id as nat) + ">"@, "<@!"@ + decimal(id as nat) + ">"@)
}

/// The message, trimmed, is a mention of the bot and nothing else.
pub open spec fn is_bare_bot_mention_spec(content: Seq<char>, bot_id: u64) -> bool {
    trim(content) == mention_forms(bot_id).0 || trim(content) == mention_forms(bot_id).1
}

fn mention_text(bang: bool, id: u64) -> (r: Vec<char>)
    ensures
        r@ == if bang {
            mention_forms(id).1
        } else {
            mention_forms(id).0
        },
{
    let mut out = if bang {
        to_chars("<@!")
    } else {
        to_chars("<@")
    };
    append(&mut out, decimal_exec(id).as_slice());
    append_str(&mut out, ">");
    out
}

pub fn is_bare_bot_mention(content: &str, bot_id: u64) -> (r: bool)
    ensures
        r == is_bare_bot_mention_spec(content@, bot_id),
{
    let chars = to_chars(content);
    let t = trim_exec(chars.as_slice());
    eq_exec(t, mention_text(false, bot_id).as_slice()) || eq_exec(t, mention_text(true, bot_id).as_slice())
}

/// The answer to a bare mention: how to reach the commands.
pub fn mention_reply(prefix: &str) -> (r: String)
    ensures
        r@ == "My prefix is `"@ + prefix@ + "`, use `"@ + prefix@ + "help` to see commands."@,
{
    let mut out = to_chars("My prefix is `");
    append_str(&mut out, prefix);
    append_str(&mut out, "`, use `");
    append_str(&mut out, prefix);
    append_str(&mut out, "help` to see commands.");
    from_chars(out.as_slice())
}

} // verus!
