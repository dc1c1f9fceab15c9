use genesis::commands::{
    autocomplete_service, blocked_list_text, checkperms_text, decode_snooze, parse_duration_secs, parse_message_id,
    pong_text, reminder_delay_allowed, reminder_line, reminder_message, reminder_text, setting_column,
    snooze_button_id, snoozed_message, snoozed_text, stats_text, stats_totals, toggle_target, unknown_service_message,
    uptime_text, valid_block_domain, welcome_mentions_user, welcome_message, welcome_plan, welcome_settings_reply,
    OnlineKind, ServerSettings, StatusKind, toggle_done_message, already_blocked_message, domain_blocked_message,
    domain_unblocked_message,
};
use genesis::owner::{
    blacklist_server_message, blacklist_user_message, global_block_message, global_blocked_list_text,
    global_unblock_message, leave_failed_message, left_server_message, unblacklist_server_message,
    unblacklist_user_message,
};
use genesis::reminders::{
    check_new_reminder, remind_at, reminder_add, reminder_list_text, reminder_removed_message, reminder_set_message,
    snooze_action, snooze_buttons, too_many_reminders, ReminderRow, RestText, SnoozeAction,
};
use genesis::moderation::{
    already_banned_message, ban_delete_days, ban_done_message, ban_failed_message, ban_member_refusal,
    ban_target_refusal, highest_role, kick_done_message, kick_refusal, kick_role, kick_target, mod_reason, KickTarget,
    ban_step, kick_step, BanAction, BanEvent, BanRequest, KickAction, KickEvent, KickRequest, MemberRoles,
};
use genesis::mention::{is_bare_bot_mention, mention_reply};
use genesis::errors::{command_enabled, command_refusal, error_reply, is_toggleable_command, CommandFailure};
use genesis::delete_embed::{delete_refusal, latest_own_embed, RecentMessage};
use genesis::help::{help_text, CommandInfo, ParamInfo};

#[test]
fn durations() {
    assert_eq!(parse_duration_secs("10"), Some(600));
    assert_eq!(parse_duration_secs(" 1H30m "), Some(5400));
    assert_eq!(parse_duration_secs("2d"), Some(172800));
    assert_eq!(parse_duration_secs("1w1s"), Some(604801));
    assert_eq!(parse_duration_secs("0"), Some(0));
    assert_eq!(parse_duration_secs("0m"), None);
    assert_eq!(parse_duration_secs("10x"), None);
    assert_eq!(parse_duration_secs("m"), None);
    assert_eq!(parse_duration_secs("5m3"), None);
    assert_eq!(parse_duration_secs(""), None);
    assert_eq!(parse_duration_secs("307445734561825861"), None);
}

#[test]
fn bare_number_means_minutes_and_units_multiply() {
    for n in [1u64, 7, 45, 1000] {
        assert_eq!(parse_duration_secs(&n.to_string()), Some(n * 60));
        assert_eq!(parse_duration_secs(&format!("{}h", n)), Some(n * 3600));
        assert_eq!(parse_duration_secs(&format!("{}s", n)), Some(n));
    }
}

#[test]
fn reminder_rules() {
    assert!(!reminder_delay_allowed(9));
    assert!(reminder_delay_allowed(10));
    assert!(reminder_delay_allowed(31_536_000));
    assert!(!reminder_delay_allowed(31_536_001));
    assert_eq!(reminder_text(Some("")), None);
    assert_eq!(reminder_text(None), None);
    assert_eq!(reminder_text(Some("hi")), Some("hi".to_string()));
    let long = "é".repeat(600);
    assert_eq!(reminder_text(Some(&long)), Some("é".repeat(500)));
}

#[test]
fn reminder_texts() {
    assert_eq!(reminder_line(3, 1700000000, Some("a\nb")), "`#3` <t:1700000000:R> - a b");
    assert_eq!(reminder_line(-1, -5, None), "`#-1` <t:-5:R> - (no text)");
    assert_eq!(reminder_line(1, 2, Some(&"x".repeat(80))), format!("`#1` <t:2:R> - {}", "x".repeat(60)));
    assert_eq!(reminder_message(42, Some("feed cat")), "<@42> Reminder: feed cat");
    assert_eq!(reminder_message(42, None), "<@42> Reminder.");
    assert_eq!(reminder_set_message(7, 1700000000), "Reminder `#7` set for <t:1700000000:R>.");
    assert_eq!(reminder_removed_message(7, true), Ok("Reminder `#7` removed.".to_string()));
    assert_eq!(reminder_removed_message(7, false), Err("No reminder `#7` found that belongs to you.".to_string()));
    assert_eq!(remind_at(1_700_000_000, 600), 1_700_000_600);
}

#[test]
fn new_reminder_checks() {
    assert_eq!(
        check_new_reminder(false, "10m", None).err(),
        Some("You're being rate limited. Try again in a few seconds.".to_string())
    );
    assert_eq!(
        check_new_reminder(true, "soon", None).err(),
        Some("Invalid duration. Use a number of minutes or units like `10m`, `1h30m`, `2d`.".to_string())
    );
    assert_eq!(
        check_new_reminder(true, "5s", None).err(),
        Some("Duration must be between 10 seconds and 1 year.".to_string())
    );
    let r = check_new_reminder(true, "1h", Some("stretch")).ok().unwrap();
    assert_eq!(r.seconds, 3600);
    assert_eq!(r.text, Some("stretch".to_string()));
    assert_eq!(too_many_reminders(24), None);
    assert_eq!(
        too_many_reminders(25),
        Some("You already have 25 reminders. Remove one first with `reminder remove <id>`.".to_string())
    );
}

#[test]
fn reminder_lists() {
    assert_eq!(reminder_list_text(&[]), Err("You have no reminders.".to_string()));
    let rows = vec![
        ReminderRow { id: 1, remind_at: 10, text: Some("a".to_string()) },
        ReminderRow { id: 2, remind_at: 20, text: None },
    ];
    assert_eq!(
        reminder_list_text(&rows),
        Ok("**Your reminders:**\n`#1` <t:10:R> - a\n`#2` <t:20:R> - (no text)".to_string())
    );
}

#[test]
fn rest_text() {
    assert_eq!(RestText::extract("  hello world ").0, "hello world");
    assert!(RestText::pop_from("   ").is_none());
    assert_eq!(RestText::pop_from(" take out trash ").unwrap().0, "take out trash");
}

#[test]
fn snooze_buttons_round_trip() {
    let id = snooze_button_id(600, 42);
    assert_eq!(id, "rem:snooze:600:42");
    assert_eq!(decode_snooze(&id), Some((600, "42".to_string())));
    assert_eq!(decode_snooze("rem:snooze:x:42"), None);
    assert_eq!(decode_snooze("other"), None);
    let buttons = snooze_buttons(9);
    assert_eq!(
        buttons,
        vec![
            ("rem:snooze:600:9".to_string(), "Snooze 10m"),
            ("rem:snooze:3600:9".to_string(), "Snooze 1h"),
            ("rem:snooze:86400:9".to_string(), "Snooze 1d"),
        ]
    );
    for (bid, _) in &buttons {
        assert!(decode_snooze(bid).is_some());
    }
}

#[test]
fn snooze_actions() {
    assert!(matches!(snooze_action("diff:next:x", 1, ""), SnoozeAction::Ignore));
    assert!(matches!(snooze_action("rem:snooze:600:42", 7, ""), SnoozeAction::NotOwner));
    match snooze_action("rem:snooze:600:42", 42, "<@42> Reminder: feed cat") {
        SnoozeAction::Snooze { secs, owner, text } => {
            assert_eq!(secs, 600);
            assert_eq!(owner, "42");
            assert_eq!(text, Some("feed cat".to_string()));
        }
        _ => panic!("expected a snooze"),
    }
    assert_eq!(snoozed_text("<@42> Reminder."), None);
    assert_eq!(snoozed_message("<@42> Reminder.", 99), "<@42> Reminder.\n-# Snoozed, next reminder <t:99:R>");
}

#[test]
fn message_ids() {
    assert_eq!(parse_message_id(" 123 "), Some(123));
    assert_eq!(parse_message_id("https://discord.com/channels/1/2/345"), Some(345));
    assert_eq!(parse_message_id("https://discord.com/channels/1/2/"), None);
    assert_eq!(parse_message_id("abc"), None);
}

#[test]
fn presence_names() {
    assert_eq!(StatusKind::from_name("PLAYING"), StatusKind::Playing);
    assert_eq!(StatusKind::from_name("custom"), StatusKind::Custom);
    assert_eq!(StatusKind::from_name("whatever"), StatusKind::Watching);
    assert_eq!(OnlineKind::from_name("Dnd"), OnlineKind::Dnd);
    assert_eq!(OnlineKind::from_name(""), OnlineKind::Online);
}

#[test]
fn welcome() {
    assert_eq!(
        welcome_message("Hi {user} ({username}) to {server_name}, #{member_count} {mention}", "S", 5, "bob", "10"),
        "Hi <@5> (bob) to S, #10 <@5>"
    );
    assert!(welcome_mentions_user("hey {user}"));
    assert!(!welcome_mentions_user("hey {mention}"));
    assert!(welcome_plan(false, Some("1"), Some("2")).is_none());
    let plan = welcome_plan(true, Some("11"), Some("x")).unwrap();
    assert_eq!(plan.role, Some(11));
    assert_eq!(plan.channel, None);
    assert_eq!(
        welcome_settings_reply(false, true, Some("9"), None, "Welcome!"),
        "**Welcome Settings**\nStatus: Enabled\nChannel: <#9>\nRole: None\nMessage: `Welcome!`\n\nPlaceholders: `{server_name}`, `{user}`, `{username}`, `{member_count}`"
    );
    assert_eq!(
        welcome_settings_reply(true, false, None, Some("3"), "x"),
        "**Welcome Settings Updated**\nStatus: Disabled\nChannel: Not set\nRole: <@&3>\nMessage: `x`"
    );
}

#[test]
fn stats_and_uptime() {
    assert_eq!(uptime_text(59), "59s");
    assert_eq!(uptime_text(61), "1m 1s");
    assert_eq!(uptime_text(3600), "1h 0m 0s");
    assert_eq!(uptime_text(90061), "1d 1h 1m 1s");
    assert_eq!(stats_totals(&[(10, 3), (5, 2)]), (15, 5));
    assert_eq!(stats_totals(&[]), (0, 0));
    assert_eq!(
        stats_text(2, 15, 5, 61, 1, 0, 3, "0.1.0"),
        "**Genesis Stats**\nServers: **2** | Users: **15** | Channels: **5**\nUptime: **1m 1s**\nConfigured Servers: **1**\nBlacklisted Users: **0** | Blacklisted Servers: **3**\nVersion: **0.1.0**"
    );
    assert_eq!(pong_text(12), "Pong! (Response time: 12ms)");
}

#[test]
fn settings_commands() {
    assert_eq!(toggle_target("TWITTER"), Some("twitter".to_string()));
    assert_eq!(toggle_target("bsky"), None);
    assert_eq!(
        unknown_service_message("bsky"),
        "Unknown service `bsky`. Valid options: `git_diffs`, `git_compares`, `git_links`, `twitter`, `tiktok`, `instagram`, `reddit`."
    );
    assert_eq!(autocomplete_service("GIT_"), vec!["git_diffs", "git_compares", "git_links"]);
    assert_eq!(autocomplete_service("t"), vec!["twitter", "tiktok"]);
    assert_eq!(autocomplete_service(""), vec!["git_diffs", "git_compares", "git_links", "twitter", "tiktok", "instagram", "reddit"]);
    assert!(valid_block_domain("tiktok.com"));
    assert!(!valid_block_domain("localhost"));
    assert!(!valid_block_domain(""));
    assert_eq!(setting_column("git_links"), Some("git_links_enabled"));
    let d = ServerSettings::defaults("1");
    assert!(d.git_diffs_enabled && d.git_compares_enabled && d.git_links_enabled && d.twitter_enabled);
    assert!(d.tiktok_enabled && d.instagram_enabled);
    assert_eq!(setting_column("tiktok"), Some("tiktok_enabled"));
    assert_eq!(setting_column("instagram"), Some("instagram_enabled"));
    assert_eq!(setting_column("twitter"), Some("twitter_enabled"));
    assert_eq!(setting_column("bsky"), None);
    assert_eq!(d.guild_id, "1");
    assert_eq!(
        blocked_list_text(&["a.com".to_string(), "b.org".to_string()]),
        "**Blocked domains in this server:**\n- a.com\n- b.org"
    );
    assert_eq!(blocked_list_text(&[]), "No domains are blocked in this server.");
    assert_eq!(toggle_done_message("twitter", false), "**twitter** has been disabled.");
    assert_eq!(toggle_done_message("git_links", true), "**git_links** has been enabled.");
    assert_eq!(already_blocked_message("a.com"), "**a.com** is already blocked in this server.");
    assert_eq!(
        domain_blocked_message("a.com"),
        "**a.com** has been blocked in this server. Subdomains are also blocked."
    );
    assert_eq!(domain_unblocked_message("a.com", true), "**a.com** has been unblocked in this server.");
    assert_eq!(domain_unblocked_message("a.com", false), "**a.com** is not on this server's blocklist.");
}

#[test]
fn owner_replies() {
    assert_eq!(blacklist_user_message("bob#1", None), "**bob#1** has been blacklisted");
    assert_eq!(blacklist_user_message("bob#1", Some("spam")), "**bob#1** has been blacklisted - Reason: spam");
    assert_eq!(unblacklist_user_message("bob#1", true), "**bob#1** has been removed from the blacklist");
    assert_eq!(unblacklist_user_message("bob#1", false), "**bob#1** was not in the blacklist");
    assert_eq!(blacklist_server_message("42", Some("raid")), "Server **42** has been blacklisted - Reason: raid");
    assert_eq!(unblacklist_server_message("42", true), "Server **42** has been removed from the blacklist");
    assert_eq!(unblacklist_server_message("42", false), "Server **42** was not in the blacklist");
    assert_eq!(global_block_message("x.com"), "**x.com** has been globally blocked (subdomains too)");
    assert_eq!(global_unblock_message("x.com", true), "**x.com** removed from the global blocklist");
    assert_eq!(global_unblock_message("x.com", false), "**x.com** was not in the global blocklist");
    assert_eq!(global_blocked_list_text(&[]), "No domains are globally blocked.");
    assert_eq!(global_blocked_list_text(&["x.com".to_string()]), "**Globally blocked domains:**\n- x.com");
    assert_eq!(left_server_message("Home", "42"), "Successfully left server **Home** (42)");
    assert_eq!(leave_failed_message("42"), "Failed to find server with ID **42**");
}

#[test]
fn permissions_text() {
    assert_eq!(
        checkperms_text(true, false, true, 55, 3072),
        "**Bot permissions in this channel:**\nSend Messages: **Yes**\nManage Messages: **No**\nRead Message History: **Yes**\n\nChannel ID: 55\nRaw permissions: 3072"
    );
}

#[test]
fn moderation() {
    assert_eq!(highest_role(&[3, 9, 1]), 9);
    assert_eq!(highest_role(&[]), 0);
    assert_eq!(kick_role(&[-2]), 0);
    assert_eq!(ban_target_refusal(true, false), Some("You cannot ban yourself."));
    assert_eq!(ban_target_refusal(false, true), Some("You cannot ban me."));
    assert_eq!(ban_target_refusal(false, false), None);
    assert_eq!(ban_member_refusal(true, 0, 5, 5), Some("You cannot ban the server owner."));
    assert_eq!(ban_member_refusal(false, 5, 5, 9), Some("You cannot ban this user. They have an equal or higher role than you."));
    assert_eq!(ban_member_refusal(false, 5, 6, 5), Some("I cannot ban this user. They have an equal or higher role than me."));
    assert_eq!(ban_member_refusal(false, 1, 6, 5), None);
    assert_eq!(ban_delete_days(None), Ok(0));
    assert_eq!(ban_delete_days(Some(7)), Ok(7));
    assert_eq!(ban_delete_days(Some(8)), Err("Delete days must be between 0 and 7."));
    assert_eq!(mod_reason(None), "No reason provided");
    assert_eq!(already_banned_message(true), "That user is already banned. Softban cannot be performed.");
    assert_eq!(already_banned_message(false), "That user is already banned.");
    assert_eq!(
        ban_done_message("u#1", 9, "spam", 1, false, true),
        "**Banned** **u#1** (9).\n**Reason:** spam\n**Messages deleted:** 1 day"
    );
    assert_eq!(
        ban_done_message("u#1", 9, "spam", 2, true, true),
        "**Softbanned** **u#1** (9).\n**Reason:** spam\n**Messages deleted:** 2 days"
    );
    assert_eq!(
        ban_done_message("u#1", 9, "spam", 2, true, false),
        "**Banned** **u#1** (9), but the unban step of softban failed.\n**Reason:** spam"
    );
    assert_eq!(ban_failed_message("u#1"), "Failed to ban **u#1**.");
    assert!(matches!(kick_target(true, true), KickTarget::Refuse("You cannot kick yourself")));
    assert!(matches!(kick_target(false, true), KickTarget::Leave("Fine, I'll leave...")));
    assert!(matches!(kick_target(false, false), KickTarget::Check));
    assert_eq!(kick_refusal(false, false, 0, 0, 0), Some("User is not in this server"));
    assert_eq!(kick_refusal(true, true, 0, 9, 9), Some("Cannot kick the server owner"));
    assert_eq!(kick_refusal(true, false, 4, 4, 9), Some("Cannot kick this user - they have equal or higher role than you"));
    assert_eq!(kick_refusal(true, false, 4, 5, 4), Some("Cannot kick this user - they have equal or higher role than me"));
    assert_eq!(kick_refusal(true, false, 1, 5, 4), None);
    assert_eq!(kick_done_message("bob", 3, "No reason provided"), "**Kicked** bob (3)\n**Reason:** No reason provided");
}

#[test]
fn mentions() {
    assert!(is_bare_bot_mention("  <@123> ", 123));
    assert!(is_bare_bot_mention("<@!123>", 123));
    assert!(!is_bare_bot_mention("<@123> hi", 123));
    assert!(!is_bare_bot_mention("<@124>", 123));
    assert_eq!(mention_reply("!"), "My prefix is `!`, use `!help` to see commands.");
}

#[test]
fn error_replies() {
    let params = vec![
        ParamInfo { name: "duration".to_string(), required: true, description: None },
        ParamInfo { name: "reminder".to_string(), required: false, description: None },
    ];
    assert_eq!(
        error_reply(&CommandFailure::Command, "!", "x", &params),
        Some("Something went wrong while running that command. Please try again.".to_string())
    );
    assert_eq!(
        error_reply(
            &CommandFailure::ArgumentParse { input: Some("abc".to_string()), error: "bad number".to_string() },
            "!",
            "reminder add",
            &params
        ),
        Some("I couldn't understand `abc`: bad number\nUsage: `!reminder add <duration> [reminder]`".to_string())
    );
    assert_eq!(
        error_reply(&CommandFailure::ArgumentParse { input: None, error: "missing".to_string() }, "/", "ping", &vec![]),
        Some("That command was used incorrectly: missing\nUsage: `/ping`".to_string())
    );
    assert_eq!(
        error_reply(&CommandFailure::MissingBotPermissions("Ban Members".to_string()), "!", "ban", &params),
        Some("I'm missing the following permissions: **Ban Members**.".to_string())
    );
    assert_eq!(
        error_reply(&CommandFailure::MissingUserPermissions(None), "!", "ban", &params),
        Some("You're missing the following permissions: **unknown**.".to_string())
    );
    assert_eq!(error_reply(&CommandFailure::CheckFailed(false), "!", "x", &params), None);
    assert_eq!(
        error_reply(&CommandFailure::CheckFailed(true), "!", "x", &params),
        Some("You don't have permission to run this command.".to_string())
    );
    assert_eq!(error_reply(&CommandFailure::Other, "!", "x", &params), None);
}

#[test]
fn command_gates() {
    assert!(is_toggleable_command("time"));
    assert!(!is_toggleable_command("ping"));
    assert!(command_enabled("ping", false));
    assert!(!command_enabled("git", false));
    assert!(command_enabled("git", true));
    assert_eq!(command_refusal(false, false), Some("You are blacklisted from using this bot."));
    assert_eq!(command_refusal(true, false), Some("You're being rate limited. Try again in a few seconds."));
    assert_eq!(command_refusal(true, true), None);
}

#[test]
fn deleting_embeds() {
    let recent = vec![
        RecentMessage { author_id: 5, replied_to: Some(1) },
        RecentMessage { author_id: 9, replied_to: Some(2) },
        RecentMessage { author_id: 9, replied_to: Some(1) },
        RecentMessage { author_id: 9, replied_to: Some(1) },
    ];
    assert_eq!(latest_own_embed(&recent, 9, 1), Some(2));
    assert_eq!(latest_own_embed(&recent, 9, 3), None);
    assert_eq!(delete_refusal(5, 9, true, None, 1), Some("That isn't one of my messages."));
    assert_eq!(
        delete_refusal(9, 9, false, Some(2), 1),
        Some("You can only delete embeds for links you posted, unless you can manage messages here.")
    );
    assert_eq!(delete_refusal(9, 9, false, Some(1), 1), None);
    assert_eq!(delete_refusal(9, 9, true, None, 1), None);
}

fn cmd(name: &str, desc: Option<&str>, params: Vec<ParamInfo>, subs: Vec<CommandInfo>) -> CommandInfo {
    CommandInfo {
        name: name.to_string(),
        description: desc.map(|d| d.to_string()),
        hide_in_help: false,
        parameters: params,
        subcommands: subs,
    }
}

#[test]
fn help_texts() {
    let add = cmd(
        "add",
        Some("Set a reminder"),
        vec![ParamInfo { name: "duration".to_string(), required: true, description: Some("When".to_string()) }],
        vec![],
    );
    let reminder = cmd("reminder", Some("Manage reminders"), vec![], vec![add]);
    let ping = cmd("ping", None, vec![], vec![]);
    let mut hidden = cmd("secret", Some("x"), vec![], vec![]);
    hidden.hide_in_help = true;
    let all = vec![ping, reminder, hidden];
    assert_eq!(
        help_text("!", &all, None),
        "**Commands:**\n- `!ping` - \n- `!reminder` - Manage reminders\n\nUse `!help <command>` for details on a specific command."
    );
    assert_eq!(help_text("!", &all, Some("nope")), "Command `nope` not found.");
    assert_eq!(help_text("!", &all, Some("!ping")), "**!ping** - (no description)");
    assert_eq!(
        help_text("!", &all, Some("add")),
        "**!reminder add** - Set a reminder\n\n**Usage:** `!reminder add <duration>`\n\n**Arguments:**\n- `duration` (required) - When"
    );
    assert_eq!(
        help_text("!", &all, Some("reminder")),
        "**!reminder** - Manage reminders\n\n**Subcommands:**\n- `!reminder add <duration>` - Set a reminder\n  **Arguments:**\n  - `duration` (required) - When"
    );
}

#[test]
fn snoozing_keeps_the_text() {
    assert_eq!(snoozed_text(&reminder_message(5, Some("feed the cat"))), Some("feed the cat".to_string()));
    assert_eq!(
        snoozed_text(&reminder_message(5, Some("Reminder: twice"))),
        Some("Reminder: twice".to_string())
    );
    assert_eq!(snoozed_text(&reminder_message(5, None)), None);
}

#[test]
fn reminder_add_decision() {
    let now = 1_700_000_000;
    assert_eq!(reminder_add(true, "10m", Some("tea"), 0, now), Ok((now + 600, Some("tea".to_string()))));
    assert_eq!(reminder_add(true, "1h", None, 24, now), Ok((now + 3600, None)));
    assert_eq!(
        reminder_add(true, "1h", None, 25, now),
        Err("You already have 25 reminders. Remove one first with `reminder remove <id>`.".to_string())
    );
    assert_eq!(
        reminder_add(false, "1h", None, 0, now),
        Err("You're being rate limited. Try again in a few seconds.".to_string())
    );
    assert_eq!(
        reminder_add(true, "5s", None, 30, now),
        Err("Duration must be between 10 seconds and 1 year.".to_string())
    );
    assert_eq!(
        reminder_add(true, "soon", None, 0, now),
        Err("Invalid duration. Use a number of minutes or units like `10m`, `1h30m`, `2d`.".to_string())
    );
}

/// Runs the ban command against fixed answers, listing what it does.
fn run_ban(req: &BanRequest, member: Option<MemberRoles>, banned: bool, ban_ok: bool, unban_ok: bool) -> Vec<String> {
    let mut out = Vec::new();
    let mut event = BanEvent::Start;
    loop {
        match ban_step(req, event) {
            BanAction::Reply(m) => {
                out.push(format!("reply {}", m));
                return out;
            }
            BanAction::LookUpMember => {
                out.push("member?".to_string());
                event = BanEvent::Member(member);
            }
            BanAction::LookUpBan => {
                out.push("banned?".to_string());
                event = BanEvent::BanRecord(banned);
            }
            BanAction::Ban { days, reason } => {
                out.push(format!("ban {} {}", days, reason));
                event = BanEvent::Banned(ban_ok);
            }
            BanAction::Unban { reason } => {
                out.push(format!("unban {}", reason));
                event = BanEvent::Unbanned(unban_ok);
            }
        }
    }
}

fn ban_request(author: bool, bot: bool, days: Option<u8>, soft: Option<bool>) -> BanRequest {
    BanRequest {
        target_is_author: author,
        target_is_bot: bot,
        delete_days: days,
        softban: soft,
        reason: Some("spam".to_string()),
        tag: "eve#1".to_string(),
        id: 9,
    }
}

#[test]
fn ban_runs() {
    let low = Some(MemberRoles { is_owner: false, target: 1, author: 5, bot: 5 });
    let high = Some(MemberRoles { is_owner: false, target: 5, author: 5, bot: 9 });
    assert_eq!(run_ban(&ban_request(true, false, None, None), low, false, true, true), vec!["reply You cannot ban yourself."]);
    assert_eq!(run_ban(&ban_request(false, true, None, None), low, false, true, true), vec!["reply You cannot ban me."]);
    assert_eq!(
        run_ban(&ban_request(false, false, None, None), high, false, true, true),
        vec!["member?", "reply You cannot ban this user. They have an equal or higher role than you."]
    );
    assert_eq!(
        run_ban(&ban_request(false, false, Some(8), None), low, false, true, true),
        vec!["member?", "reply Delete days must be between 0 and 7."]
    );
    assert_eq!(
        run_ban(&ban_request(false, false, Some(1), Some(true)), low, false, true, true),
        vec![
            "member?",
            "ban 1 spam",
            "unban Softban",
            "reply **Softbanned** **eve#1** (9).\n**Reason:** spam\n**Messages deleted:** 1 day",
        ]
    );
    assert_eq!(
        run_ban(&ban_request(false, false, None, None), None, true, true, true),
        vec!["member?", "banned?", "reply That user is already banned."]
    );
    assert_eq!(
        run_ban(&ban_request(false, false, None, None), None, false, true, true),
        vec!["member?", "banned?", "ban 0 spam", "reply **Banned** **eve#1** (9).\n**Reason:** spam\n**Messages deleted:** 0 days"]
    );
    assert_eq!(
        run_ban(&ban_request(false, false, None, Some(true)), None, false, true, false),
        vec![
            "member?",
            "banned?",
            "ban 0 spam",
            "unban Softban",
            "reply **Banned** **eve#1** (9), but the unban step of softban failed.\n**Reason:** spam",
        ]
    );
    assert_eq!(
        run_ban(&ban_request(false, false, None, None), None, false, false, true),
        vec!["member?", "banned?", "ban 0 spam", "reply Failed to ban **eve#1**."]
    );
}

/// Runs the kick command against fixed answers, listing what it does.
fn run_kick(req: &KickRequest, member: Option<MemberRoles>, kick_err: Option<&str>, leave_err: Option<&str>) -> Vec<String> {
    let mut out = Vec::new();
    let mut event = KickEvent::Start;
    loop {
        match kick_step(req, &event) {
            KickAction::Reply(m) => {
                out.push(format!("reply {}", m));
                return out;
            }
            KickAction::Stop => return out,
            KickAction::Leave(m) => {
                out.push(format!("leave {}", m));
                event = KickEvent::Left(leave_err.map(|e| e.to_string()));
            }
            KickAction::LookUpMember => {
                out.push("member?".to_string());
                event = KickEvent::Member(member);
            }
            KickAction::Kick { reason } => {
                out.push(format!("kick {}", reason));
                event = KickEvent::Kicked(kick_err.map(|e| e.to_string()));
            }
        }
    }
}

fn kick_request(author: bool, bot: bool) -> KickRequest {
    KickRequest { target_is_author: author, target_is_bot: bot, reason: None, name: "eve".to_string(), id: 9 }
}

#[test]
fn kick_runs() {
    let low = Some(MemberRoles { is_owner: false, target: 0, author: 3, bot: 4 });
    let owner = Some(MemberRoles { is_owner: true, target: 0, author: 3, bot: 4 });
    assert_eq!(run_kick(&kick_request(true, true), low, None, None), vec!["reply You cannot kick yourself"]);
    assert_eq!(run_kick(&kick_request(false, true), low, None, None), vec!["leave Fine, I'll leave..."]);
    assert_eq!(
        run_kick(&kick_request(false, true), low, None, Some("gone")),
        vec!["leave Fine, I'll leave...", "reply Failed to leave server: gone"]
    );
    assert_eq!(run_kick(&kick_request(false, false), None, None, None), vec!["member?", "reply User is not in this server"]);
    assert_eq!(run_kick(&kick_request(false, false), owner, None, None), vec!["member?", "reply Cannot kick the server owner"]);
    assert_eq!(
        run_kick(&kick_request(false, false), low, None, None),
        vec!["member?", "kick No reason provided", "reply **Kicked** eve (9)\n**Reason:** No reason provided"]
    );
    assert_eq!(
        run_kick(&kick_request(false, false), low, Some("denied"), None),
        vec!["member?", "kick No reason provided", "reply Failed to kick eve: denied"]
    );
}
