//! The replies of the owner's commands: the user, server and domain
//! blacklists, and leaving a server.
use vstd::prelude::*;
use crate::text::{append, append_str, from_chars, to_chars};
use crate::shared::views;

verus! {

/// ` - Reason: <reason>` when a reason was given.
pub open spec fn reason_part(reason: Option<Seq<char>>) -> Seq<char> {
    match reason {
        Some(r) => " - Reason: "@ + r,
        None => seq![],
    }
}

pub open spec fn opt_view(o: Option<&str>) -> Option<Seq<char>> {
    match o {
        Some(s) => Some(s@),
        None => None,
    }
}

fn push_reason(out: &mut Vec<char>, reason: Option<&str>)
    ensures
        final(out)@ == old(out)@ + reason_part(opt_view(reason)),
{
    match reason {
        Some(r) => {
            append_str(out, " - Reason: ");
            append_str(out, r);
        },
        None => {
            assert(old(out)@ + reason_part(opt_view(reason)) =~= old(out)@);
        },
    }
}

/// The answer when a user is put on the blacklist.
pub fn blacklist_user_message(tag: &str, reason: Option<&str>) -> (r: String)
    ensures
        r@ == "**"@ + tag@ + "** has been blacklisted"@ + reason_part(opt_view(reason)),
{
    let mut out = to_chars("**");
    append_str(&mut out, tag);
    append_str(&mut out, "** has been blacklisted");
    push_reason(&mut out, reason);
    from_chars(out.as_slice())
}

/// The answer when a user is taken off the blacklist, or was not on it.
pub fn unblacklist_user_message(tag: &str, removed: bool) -> (r: String)
    ensures
        removed ==> r@ == "**"@ + tag@ + "** has been removed from the blacklist"@,
        !removed ==> r@ == "**"@ + tag@ + "** was not in the blacklist"@,
{
    let mut out = to_chars("**");
    append_str(&mut out, tag);
    if removed {
        append_str(&mut out, "** has been removed from the blacklist");
    } else {
        append_str(&mut out, "** was not in the blacklist");
    }
    from_chars(out.as_slice())
}

/// The answer when a server is put on the blacklist.
pub fn blacklist_server_message(guild_id: &str, reason: Option<&str>) -> (r: String)
    ensures
        r@ == "Server **"@ + guild_id@ + "** has been blacklisted"@ + reason_part(opt_view(reason)),
{
    let mut out = to_chars("Server **");
    append_str(&mut out, guild_id);
    append_str(&mut out, "** has been blacklisted");
    push_reason(&mut out, reason);
    from_chars(out.as_slice())
}

/// The answer when a server is taken off the blacklist, or was not on it.
pub fn unblacklist_server_message(guild_id: &str, removed: bool) -> (r: String)
    ensures
        removed ==> r@ == "Server **"@ + guild_id@ + "** has been removed from the blacklist"@,
        !removed ==> r@ == "Server **"@ + guild_id@ + "** was not in the blacklist"@,
{
    let mut out = to_chars("Server **");
    append_str(&mut out, guild_id);
    if removed {
        append_str(&mut out, "** has been removed from the blacklist");
    } else {
        append_str(&mut out, "** was not in the blacklist");
    }
    from_chars(out.as_slice())
}

/// The answer when a domain is blocked everywhere.
pub fn global_block_message(domain: &str) -> (r: String)
    ensures
        r@ == "**"@ + domain@ + "** has been globally blocked (subdomains too)"@,
{
    let mut out = to_chars("**");
    append_str(&mut out, domain);
    append_str(&mut out, "** has been globally blocked (subdomains too)");
    from_chars(out.as_slice())
}

/// The answer when a domain is taken off the global blocklist, or was not
/// on it.
pub fn global_unblock_message(domain: &str, removed: bool) -> (r: String)
    ensures
        removed ==> r@ == "**"@ + domain@ + "** removed from the global blocklist"@,
        !removed ==> r@ == "**"@ + domain@ + "** was not in the global blocklist"@,
{
    let mut out = to_chars("**");
    append_str(&mut out, domain);
    if removed {
        append_str(&mut out, "** removed from the global blocklist");
    } else {
        append_str(&mut out, "** was not in the global blocklist");
    }
    from_chars(out.as_slice())
}

/// The global blocklist, one domain per line.
pub open spec fn global_list_spec(domains: Seq<Seq<char>>) -> Seq<char> {
    if domains.len() == 0 {
        "No domains are globally blocked."@
    } else {
        "**Globally blocked domains:**\n"@ + crate::commands::bullets_spec(domains)
    }
}

pub fn global_blocked_list_text(domains: &[String]) -> (r: String)
    ensures
        r@ == global_list_spec(views(domains@)),
{
    if domains.len() == 0 {
        return "No domains are globally blocked.".to_string();
    }
    let mut out = to_chars("**Globally blocked domains:**\n");
    append(&mut out, crate::commands::bullets(domains).as_slice());
    from_chars(out.as_slice())
}

/// The answer when the bot has left a server.
pub fn left_server_message(name: &str, guild_id: &str) -> (r: String)
    ensures
        r@ == "Successfully left server **"@ + name@ + "** ("@ + guild_id@ + ")"@,
{
    let mut out = to_chars("Successfully left server **");
    append_str(&mut out, name);
    append_str(&mut out, "** (");
    append_str(&mut out, guild_id);
    append_str(&mut out, ")");
    from_chars(out.as_slice())
}

/// The answer when no server has the given id.
pub fn leave_failed_message(guild_id: &str) -> (r: String)
    ensures
        r@ == "Failed to find server with ID **"@ + guild_id@ + "**"@,
{
    let mut out = to_chars("Failed to find server with ID **");
    append_str(&mut out, guild_id);
    append_str(&mut out, "**");
    from_chars(out.as_slice())
}

} // verus!
