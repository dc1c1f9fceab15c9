use genesis::scan::{drop_blocked, drop_blocked_files, found_file_links, found_links, found_tiktok_links, LinkService};
use genesis::render::{
    attachment_url, bsky_post_text, instagram_post_text, reddit_post_text, sent_by_line, streamable_title_text,
    tiktok_post_text, twitter_post_text,
};
use genesis::twitter::TwitterPost;
use genesis::instagram::InstagramPost;
use genesis::tiktok::TikTokPost;
use genesis::reddit::RedditPost;
use genesis::bsky::BskyPost;
use genesis::clock::{time_reply, time_reply_is_safe, time_targets, timezone_lookup_url, timezone_reply, wants_caller_lookup, TzLookup};
use genesis::timezones::{format_diff, parse_timezone, parse_timezone_is_safe, ZoneSpec};

const NOON_JAN_15_2024: i64 = 1_705_320_000;

#[test]
fn media_links_are_found_once_each() {
    let msg = "see (https://x.com/a/status/1), https://x.com/a/status/1 and https://x.com/b/status/2!";
    assert_eq!(found_links(msg, LinkService::Twitter, &[]), vec!["https://x.com/a/status/1", "https://x.com/b/status/2"]);
    assert!(found_links("no links at all", LinkService::Twitter, &[]).is_empty());
    assert_eq!(
        found_links("https://bsky.app/profile/a/post/1 https://bsky.app/profile/a", LinkService::Bsky, &[]),
        vec!["https://bsky.app/profile/a/post/1"]
    );
    assert_eq!(
        found_links("https://streamable.com/abc x", LinkService::Streamable, &[]),
        vec!["https://streamable.com/abc"]
    );
    assert_eq!(
        found_links("https://www.instagram.com/p/X/", LinkService::Instagram, &[]),
        vec!["https://www.instagram.com/p/X/"]
    );
    assert_eq!(
        found_links("https://redd.it/abc.", LinkService::Reddit, &[]),
        vec!["https://redd.it/abc"]
    );
    let urls = vec!["https://a.com/1".to_string(), "https://b.com/2".to_string()];
    assert_eq!(drop_blocked(urls, &["a.com".to_string()]), vec!["https://b.com/2"]);
}

#[test]
fn tiktok_links_are_found_by_post() {
    let msg = "https://www.tiktok.com/@u/video/123 https://tiktok.com/@v/video/123 https://vm.tiktok.com/ZMx/";
    assert_eq!(found_tiktok_links(msg, &[]), vec!["https://vm.tiktok.com/123", "https://vm.tiktok.com/ZMx"]);
}

#[test]
fn file_links_are_found() {
    let msg = "https://github.com/o/r/blob/m/a.rs#L1-L2), and https://example.com/x";
    let links = found_file_links(msg);
    assert_eq!(links.len(), 1);
    assert_eq!(links[0].original_url, "https://github.com/o/r/blob/m/a.rs#L1-L2");
    assert_eq!(links[0].end_line, Some(2));
    assert!(drop_blocked_files(links, &["github.com".to_string()]).is_empty());
}

#[test]
fn post_headings() {
    let tweet = TwitterPost {
        author: "Jack".to_string(),
        username: "jack".to_string(),
        text: "hello".to_string(),
        media: vec![],
        replying_to: Some("bob".to_string()),
        quote_author: Some("Q".to_string()),
        quote_username: Some("q".to_string()),
        quote_text: Some("a\nb".to_string()),
    };
    assert_eq!(twitter_post_text(&tweet), "**Jack** (@jack)\nReplying to @bob\nhello\n\n> **Q** (@q)\n> a\n> b");
    let ig = |author: &str, username: &str, text: &str| InstagramPost {
        author: author.to_string(),
        username: username.to_string(),
        text: text.to_string(),
        media: vec![],
    };
    assert_eq!(instagram_post_text(&ig("", "", "")), "**Instagram**");
    assert_eq!(instagram_post_text(&ig("Ann", "", "")), "**Ann**");
    assert_eq!(instagram_post_text(&ig("ann", "ann", "cap")), "**@ann**\ncap");
    assert_eq!(instagram_post_text(&ig("Ann", "ann", "")), "**Ann** (@ann)");
    let tt = TikTokPost { author: "N".to_string(), username: "n".to_string(), text: String::new(), media: vec![] };
    assert_eq!(tiktok_post_text(&tt), "**N** (@n)");
    let rp = RedditPost {
        author: "u".to_string(),
        subreddit: "r/rust".to_string(),
        title: "T".to_string(),
        text: "body".to_string(),
        media: vec![],
        nsfw: true,
        spoiler: true,
    };
    assert_eq!(reddit_post_text(&rp), "**T**\nr/rust · u/u · NSFW · Spoiler\n\nbody");
    let plain = RedditPost { subreddit: String::new(), nsfw: false, spoiler: false, text: String::new(), ..rp };
    assert_eq!(reddit_post_text(&plain), "**T** by u/u");
    let bp = BskyPost {
        author: "A".to_string(),
        handle: "a.bsky.social".to_string(),
        text: "hi".to_string(),
        media: vec![],
        external: Some(("Title".to_string(), "https://x".to_string())),
        quote_author: Some("Q".to_string()),
        quote_text: None,
    };
    assert_eq!(bsky_post_text(&bp), "**A** (@a.bsky.social)\nhi\n\n[Title](https://x)\n\n> **Q**\n> ");
    assert_eq!(streamable_title_text(""), None);
    assert_eq!(streamable_title_text("Clip"), Some("**Clip**".to_string()));
    assert_eq!(sent_by_line(5), "-# Sent by <@5>");
    assert_eq!(attachment_url("a_0.jpg"), "attachment://a_0.jpg");
}

#[test]
fn timezone_texts() {
    assert!(matches!(parse_timezone("UTC"), Ok(ZoneSpec::Utc)));
    assert!(matches!(parse_timezone("gmt"), Ok(ZoneSpec::Utc)));
    assert!(matches!(parse_timezone("GMT+0"), Ok(ZoneSpec::Utc)));
    assert!(matches!(parse_timezone("UTC-3"), Ok(ZoneSpec::Offset(-10800))));
    assert!(matches!(parse_timezone("gmt+05:30"), Ok(ZoneSpec::Offset(19800))));
    assert_eq!(parse_timezone("gmt+5:30").err(), Some("Invalid offset: gmt+5:30".to_string()));
    assert!(matches!(parse_timezone("GMT-2"), Ok(ZoneSpec::Offset(-7200))));
    assert!(matches!(parse_timezone("est"), Ok(ZoneSpec::Named(n)) if n == "America/New_York"));
    assert!(matches!(parse_timezone("Europe/Berlin"), Ok(ZoneSpec::Named(n)) if n == "Europe/Berlin"));
    assert_eq!(parse_timezone("Mars/Base").err(), Some("Invalid timezone: Mars/Base".to_string()));
    assert_eq!(parse_timezone("GMT5").err(), Some("Invalid offset format: GMT5".to_string()));
    assert_eq!(parse_timezone("GMT+30").err(), Some("Invalid offset: GMT+30".to_string()));
    assert!(parse_timezone_is_safe("UTC+1"));
    assert_eq!(format_diff(3600, 0), "1 hour ahead of you");
    assert_eq!(format_diff(0, 9000), "2 hours 30 minutes behind you");
    assert_eq!(format_diff(60, 0), "1 minute ahead of you");
    assert_eq!(format_diff(5, 5), "the same time as you");
    assert_eq!(format_diff(30, 0), " ahead of you");
}

#[test]
fn time_command() {
    assert_eq!(time_targets(None), vec!["UTC"]);
    assert_eq!(time_targets(Some(" EST, GMT+1 ,")), vec!["EST", "GMT+1", ""]);
    assert!(time_reply_is_safe(Some("UTC"), Some("GMT+2, UTC")));
    assert_eq!(
        time_reply("12:00", Some("UTC"), Some("GMT+2, UTC"), 0, (2024, 1, 15)),
        Ok("**12:00 in UTC:**\n12:00:00 UTC\n\n**Conversions:**\n**GMT+2:** 14:00:00\n**UTC:** 12:00:00\n".to_string())
    );
    assert_eq!(
        time_reply(" 23:30 ", None, Some("GMT+2"), 0, (2024, 1, 15)),
        Ok("**23:30 in UTC:**\n23:30:00 UTC\n\n**Conversions:**\n**GMT+2:** 2024-01-16 01:30:00\n".to_string())
    );
    assert_eq!(
        time_reply("NOW", None, None, NOON_JAN_15_2024, (2000, 1, 1)),
        Ok("**NOW in UTC:**\n12:00:00 UTC\n\n**Conversions:**\n**UTC:** 12:00:00\n".to_string())
    );
    assert_eq!(
        time_reply("25:00", None, None, 0, (2024, 1, 15)),
        Err("Invalid time format. Use HH:MM or HH:MM:SS".to_string())
    );
    assert_eq!(
        time_reply("now", Some("Mars/Base"), None, 0, (2024, 1, 15)),
        Err("Invalid timezone: Mars/Base".to_string())
    );
}

#[test]
fn time_command_checked() {
    assert_eq!(
        genesis::clock::time_command("12:00", Some("UTC"), Some("GMT+2"), 0, (2024, 1, 15)),
        Some(Ok("**12:00 in UTC:**\n12:00:00 UTC\n\n**Conversions:**\n**GMT+2:** 14:00:00\n".to_string()))
    );
    assert_eq!(
        genesis::clock::time_command("now", Some("Mars/Base"), None, 0, (2024, 1, 15)),
        Some(Err("Invalid timezone: Mars/Base".to_string()))
    );
    assert!(!time_reply_is_safe(Some("GMT+1\u{e9}"), None));
    assert_eq!(genesis::clock::time_command("now", Some("GMT+1\u{e9}"), None, 0, (2024, 1, 15)), None);
}

#[test]
fn timezone_difference_only_for_others() {
    let utc = TzLookup::Found("UTC".to_string());
    let tokyo = Some(TzLookup::Found("Asia/Tokyo".to_string()));
    let base = "**Bob**\nTimezone: `UTC`\n24h: Mon, Jan 15 2024 12:00:00 UTC (+00:00)\n12h: Mon, Jan 15 2024 12:00:00 PM";
    assert_eq!(timezone_reply("Bob", 7, 7, &utc, &tokyo, NOON_JAN_15_2024), Ok(base.to_string()));
    assert_eq!(
        timezone_reply("Bob", 7, 8, &utc, &tokyo, NOON_JAN_15_2024),
        Ok(format!("{}\n\n-# Bob is 9 hours behind you.", base))
    );
    assert_eq!(
        timezone_reply("Bob", 7, 8, &utc, &Some(TzLookup::Found("Nowhere/City".to_string())), NOON_JAN_15_2024),
        Ok(base.to_string())
    );
    assert_eq!(timezone_reply("Bob", 7, 8, &utc, &Some(TzLookup::NotRegistered), NOON_JAN_15_2024), Ok(base.to_string()));
    assert!(wants_caller_lookup(7, 8, &utc, NOON_JAN_15_2024));
    assert!(!wants_caller_lookup(7, 7, &utc, NOON_JAN_15_2024));
    assert!(!wants_caller_lookup(7, 8, &TzLookup::NotRegistered, NOON_JAN_15_2024));
    assert!(!wants_caller_lookup(7, 8, &TzLookup::Found("Nowhere/City".to_string()), NOON_JAN_15_2024));
}

#[test]
fn timezone_command() {
    assert_eq!(timezone_lookup_url(42), "https://timezone.creations.works/v1/get?id=42");
    assert_eq!(
        timezone_reply("Bob", 1, 2, &TzLookup::NotRegistered, &None, 0),
        Err("**Bob** has not registered a timezone. They can set one at <https://timezone.creations.works/>.".to_string())
    );
    assert_eq!(timezone_reply("Bob", 1, 2, &TzLookup::Failed, &None, 0), Err("Failed to reach the timezone service.".to_string()));
    assert_eq!(
        timezone_reply("Bob", 1, 2, &TzLookup::Found("Nowhere/City".to_string()), &None, 0),
        Err("Invalid timezone returned for **Bob**: `Nowhere/City`".to_string())
    );
    assert_eq!(
        timezone_reply("Bob", 1, 2, &TzLookup::Found("UTC".to_string()), &Some(TzLookup::Found("Asia/Tokyo".to_string())), NOON_JAN_15_2024),
        Ok("**Bob**\nTimezone: `UTC`\n24h: Mon, Jan 15 2024 12:00:00 UTC (+00:00)\n12h: Mon, Jan 15 2024 12:00:00 PM\n\n-# Bob is 9 hours behind you.".to_string())
    );
}
