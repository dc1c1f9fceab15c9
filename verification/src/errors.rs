//! What a user is told when a command cannot run or fails, and the gates
//! every command passes first.
use vstd::prelude::*;
use crate::text::{append, append_str, eq_str, from_chars, to_chars, trim, trim_exec};
use crate::help::{param_signature, signature_spec, ParamInfo};

verus! {

/// Why a command did not complete.
pub enum CommandFailure {
    /// The command returned an error.
    Command,
    /// An argument could not be read: the text given, if any, and the
    /// parser's message.
    ArgumentParse { input: Option<String>, error: String },
    /// The bot lacks these permissions.
    MissingBotPermissions(String),
    /// The user lacks these permissions, when known.
    MissingUserPermissions(Option<String>),
    /// A check refused the command; whether the check itself failed.
    CheckFailed(bool),
    /// Anything else, left to the framework's own handler.
    Other,
}

/// The usage line of a command: prefix, name and parameters, trimmed.
pub open spec fn usage_line(prefix: Seq<char>, name: Seq<char>, params: Seq<ParamInfo>) -> Seq<char> {
    trim(prefix + name + " "@ + signature_spec(params))
}

/// The reply to a failure, or none when nothing is said (a check that
/// refused without failing) or the framework answers itself.
pub open spec fn error_reply_spec(
    f: CommandFailure,
    prefix: Seq<char>,
    name: Seq<char>,
    params: Seq<ParamInfo>,
) -> Option<Seq<char>> {
    match f {
        CommandFailure::Command => Some("Something went wrong while running that command. Please try again."@),
        CommandFailure::ArgumentParse { input, error } => {
            let detail = match input {
                Some(i) => "I couldn't understand `"@ + i@ + "`: "@ + error@,
                None => "That command was used incorrectly: "@ + error@,
            };
            Some(detail + "\nUsage: `"@ + usage_line(prefix, name, params) + "`"@)
        },
        CommandFailure::MissingBotPermissions(p) => Some(
            "I'm missing the following permissions: **"@ + p@ + "**."@,
        ),
        CommandFailure::MissingUserPermissions(p) => Some(
            "You're missing the following permissions: **"@ + match p {
                Some(s) => s@,
                None => "unknown"@,
            } + "**."@,
        ),
        CommandFailure::CheckFailed(failed) => if failed {
            Some("You don't have permission to run this command."@)
        } else {
            None
        },
        CommandFailure::Other => None,
    }
}

pub fn error_reply(f: &CommandFailure, prefix: &str, name: &str, params: &Vec<ParamInfo>) -> (r: Option<String>)
    ensures
        crate::git_diff::opt_view(r) == error_reply_spec(*f, prefix@, name@, params@),
{
    match f {
        CommandFailure::Command => Some(
            "Something went wrong while running that command. Please try again.".to_string(),
        ),
        CommandFailure::ArgumentParse { input, error } => {
            let mut out = match input {
                Some(i) => {
                    let mut o = to_chars("I couldn't understand `");
                    append_str(&mut o, i.as_str());
                    append_str(&mut o, "`: ");
                    o
                },
                None => to_chars("That command was used incorrectly: "),
            };
            append_str(&mut out, error.as_str());
            let mut usage = to_chars(prefix);
            append_str(&mut usage, name);
            append_str(&mut usage, " ");
            append(&mut usage, param_signature(params).as_slice());
            append_str(&mut out, "\nUsage: `");
            append(&mut out, trim_exec(usage.as_slice()));
            append_str(&mut out, "`");
            Some(from_chars(out.as_slice()))
        },
        CommandFailure::MissingBotPermissions(p) => {
            let mut out = to_chars("I'm missing the following permissions: **");
            append_str(&mut out, p.as_str());
            append_str(&mut out, "**.");
            Some(from_chars(out.as_slice()))
        },
        CommandFailure::MissingUserPermissions(p) => {
            let mut out = to_chars("You're missing the following permissions: **");
            match p {
                Some(s) => append_str(&mut out, s.as_str()),
                None => append_str(&mut out, "unknown"),
            }
            append_str(&mut out, "**.");
            Some(from_chars(out.as_slice()))
        },
        CommandFailure::CheckFailed(failed) => if *failed {
            Some("You don't have permission to run this command.".to_string())
        } else {
            None
        },
        CommandFailure::Other => None,
    }
}

pub open spec fn toggleable_commands_spec() -> Seq<Seq<char>> {
    seq!["instagram"@, "twitter"@, "tiktok"@, "bsky"@, "git"@, "timezone"@, "time"@, "checkperms"@]
}

/// Whether a server may switch a command off.
pub fn is_toggleable_command(name: &str) -> (r: bool)
    ensures
        r == toggleable_commands_spec().contains(name@),
{
    let list: Vec<&str> = vec!["instagram", "twitter", "tiktok", "bsky", "git", "timezone", "time", "checkperms"];
    assert(crate::shared::str_views(list@) =~= toggleable_commands_spec());
    let c = to_chars(name);
    let mut i: usize = 0;
    while i < list.len()
        invariant
            i <= list@.len(),
            crate::shared::str_views(list@) == toggleable_commands_spec(),
            forall|j: int| 0 <= j < i ==> toggleable_commands_spec()[j] != c@,
            c@ == name@,
        decreases list@.len() - i,
    {
        if eq_str(c.as_slice(), list[i]) {
            assert(toggleable_commands_spec()[i as int] == list@[i as int]@);
            return true;
        }
        assert(toggleable_commands_spec()[i as int] == list@[i as int]@);
        i += 1;
    }
    false
}

/// Whether a command runs: those a server cannot switch off always do;
/// the others when the server has not switched them off.
pub fn command_enabled(name: &str, enabled_here: bool) -> (r: bool)
    ensures
        r == (!toggleable_commands_spec().contains(name@) || enabled_here),
{
    !is_toggleable_command(name) || enabled_here
}

/// The refusal before a command that fetches or looks something up: for a
/// blacklisted user, then for one who is rate limited.
pub fn command_refusal(user_allowed: bool, rate_ok: bool) -> (r: Option<&'static str>)
    ensures
        !user_allowed ==> (r matches Some(m) && m@ == "You are blacklisted from using this bot."@),
        user_allowed && !rate_ok ==> (r matches Some(m) && m@
            == "You're being rate limited. Try again in a few seconds."@),
        user_allowed && rate_ok ==> r is None,
{
    if !user_allowed {
        Some("You are blacklisted from using this bot.")
    } else if !rate_ok {
        Some("You're being rate limited. Try again in a few seconds.")
    } else {
        None
    }
}

} // verus!
