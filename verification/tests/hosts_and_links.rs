use genesis::shared::{
    clean_media_url, extract_host, floor_char_boundary, host_matches_blocked, host_part, host_under_domain,
    is_safe_host, is_safe_name, is_url_in_blocklist, matches_host, media_filename, normalize_domain, pre_check,
    pre_check_user, parse_ipv4,
};
use genesis::twitter::{is_twitter_url, extract_tweet_id, twitter_hosts};
use genesis::bsky::{is_bsky_url, parse_url};
use genesis::links::{
    clean_file_url, instagram_media_filename, is_git_platform_url, is_instagram_url, is_mirror_media_url,
    is_reddit_url, is_tiktok_url, reddit_media_filename, tiktok_media_filename,
};

fn strings(v: &[&str]) -> Vec<String> {
    v.iter().map(|s| s.to_string()).collect()
}

#[test]
fn host_under_domain_cases() {
    assert!(host_under_domain("b.com", "b.com"));
    assert!(host_under_domain("a.b.com", "b.com"));
    assert!(!host_under_domain("ab.com", "b.com"));
    assert!(!host_under_domain("com", "b.com"));
}

#[test]
fn extract_host_cases() {
    assert_eq!(extract_host("https://www.x.com:8080/path?q"), Some("www.x.com".to_string()));
    assert_eq!(extract_host("https://x.com?q=1"), Some("x.com".to_string()));
    assert_eq!(extract_host("no scheme here"), None);
    assert_eq!(extract_host("https:///path"), None);
}

#[test]
fn normalize_domain_cases() {
    assert_eq!(normalize_domain("  HTTPS://www.Example.com/path:80 "), "example.com");
    assert_eq!(normalize_domain("http://tiktok.com:443"), "tiktok.com");
    assert_eq!(normalize_domain("www.www.a.b"), "a.b");
}

#[test]
fn blocklist_matches_subdomains() {
    let bl = strings(&["tiktok.com"]);
    assert!(is_url_in_blocklist("https://sub.tiktok.com/x", &bl));
    assert!(is_url_in_blocklist("https://tiktok.com/x", &bl));
    assert!(!is_url_in_blocklist("https://nottiktok.com/x", &bl));
    assert!(!is_url_in_blocklist("https://tiktok.com/x", &[]));
    assert!(is_url_in_blocklist("https://WWW.TikTok.com/a", &strings(&["www.tiktok.com"])));
    assert!(!is_url_in_blocklist("not a url", &bl));
}

#[test]
fn listed_host_is_blocked() {
    // A link whose host is itself on the list is refused.
    let bl = strings(&["example.org", "media.example.net"]);
    assert!(is_url_in_blocklist("https://media.example.net/p/1", &bl));
    assert!(host_matches_blocked("media.example.net", "media.example.net"));
}

#[test]
fn floor_char_boundary_cases() {
    assert_eq!(floor_char_boundary("héllo", 2), 1);
    assert_eq!(floor_char_boundary("héllo", 3), 3);
    assert_eq!(floor_char_boundary("héllo", 10), 6);
    assert_eq!(floor_char_boundary("", 0), 0);
}

#[test]
fn clean_media_url_strips_punctuation() {
    assert_eq!(clean_media_url("(https://x.com/a/status/1)."), "https://x.com/a/status/1");
    assert_eq!(clean_media_url("<https://a.b/c/>"), "https://a.b/c/");
    assert_eq!(clean_media_url("..."), "");
}

#[test]
fn media_filename_extensions() {
    assert_eq!(media_filename("twitter", 0, "https://pbs.twimg.com/media/abc.JPG?x", None), "twitter_0.jpg");
    assert_eq!(media_filename("twitter", 3, "https://v.com/video/1", None), "twitter_3.mp4");
    assert_eq!(media_filename("bsky", 1, "https://a.com/x.webp", None), "bsky_1.webp");
    assert_eq!(media_filename("bsky", 2, "https://a.com/x.png", None), "bsky_2.png");
    assert_eq!(media_filename("x", 0, "https://a.com/blob", None), "x_0.jpg");
    assert_eq!(media_filename("twitter", 0, "https://v.com/a.jpg", Some("gif")), "twitter_0.gif");
}

#[test]
fn safe_hosts() {
    assert!(!is_safe_name("LOCALHOST"));
    assert!(!is_safe_name("printer.local"));
    assert!(!is_safe_name("db.internal"));
    assert!(is_safe_name("example.com"));
    assert_eq!(host_part("a.com:80"), "a.com");
    assert!(!is_safe_host("10.0.0.1:80"));
    assert!(is_safe_host("8.8.8.8"));
    assert!(!is_safe_host("172.20.1.1"));
    assert!(is_safe_host("172.32.0.1"));
    assert!(!is_safe_host("169.254.1.1"));
    assert!(!is_safe_host("127.0.0.1"));
    assert!(!is_safe_host("255.255.255.255"));
    assert!(!is_safe_host("0.0.0.0"));
    assert!(!is_safe_host("intranet.lan:8080"));
    assert!(is_safe_host("example.com:8080"));
}

#[test]
fn safe_hosts_from_text() {
    assert!(!is_safe_host("127.0.0.1"));
    assert!(!is_safe_host("10.1.2.3:8080"));
    assert!(!is_safe_host("169.254.0.1"));
    assert!(!is_safe_host("0.0.0.0"));
    assert!(!is_safe_host("localhost"));
    assert!(!is_safe_host("printer.LOCAL"));
    assert!(!is_safe_host("db.internal"));
    assert!(!is_safe_host("192.168.1.1"));
    assert!(is_safe_host("8.8.8.8"));
    assert!(is_safe_host("example.com"));
    // A host cut at its first `:` is never an IPv6 literal.
    assert!(is_safe_host("::1"));
    assert!(is_safe_host("2001:db8::1"));
    // Octets with a leading zero or above 255 are not an address: the
    // text is then judged as a name.
    assert!(is_safe_host("127.0.0.01"));
    assert!(is_safe_host("10.0.0.256"));
    assert_eq!(parse_ipv4("1.2.3.4"), Some((1, 2, 3, 4)));
    assert_eq!(parse_ipv4("0.10.100.255"), Some((0, 10, 100, 255)));
    assert_eq!(parse_ipv4("1.2.3"), None);
    assert_eq!(parse_ipv4("1.2.3.4.5"), None);
    assert_eq!(parse_ipv4("01.2.3.4"), None);
    assert_eq!(parse_ipv4("1.2.3.256"), None);
    assert_eq!(parse_ipv4("1.2..4"), None);
    assert_eq!(parse_ipv4("a.b.c.d"), None);
}

#[test]
fn pre_checks() {
    assert!(pre_check_user(false, Some(true)));
    assert!(!pre_check_user(true, Some(true)));
    assert!(pre_check_user(true, None));
    assert!(!pre_check(true, true, Some(false), true, Some(false), Some(true)));
    assert!(pre_check(false, false, Some(true), true, Some(true), Some(false)));
    assert!(!pre_check(false, true, Some(true), true, None, None));
    assert!(pre_check(false, true, Some(false), false, Some(true), Some(false)));
    assert!(!pre_check(false, true, None, true, Some(true), Some(true)));
    assert!(!pre_check(false, true, None, true, None, Some(false)));
    assert!(pre_check(false, true, None, true, None, None));
}

#[test]
fn twitter_links() {
    assert!(is_twitter_url("https://x.com/user/status/123", &[]));
    assert!(is_twitter_url("https://t.co/abc", &[]));
    assert!(!is_twitter_url("https://x.com/user", &[]));
    assert!(!is_twitter_url("https://example.com/a/status/1", &[]));
    assert!(is_twitter_url("https://example.com/a/status/1", &strings(&["example.com"])));
    assert_eq!(extract_tweet_id("https://x.com/jack/status/20", &[]), Some("20".to_string()));
    assert_eq!(extract_tweet_id("https://twitter.com/i/web/status/99?s=1", &[]), Some("99".to_string()));
    assert_eq!(extract_tweet_id("https://example.com/jack/status/20", &[]), None);
    assert_eq!(twitter_hosts().len(), 9);
    assert!(matches_host("https://mobile.twitter.com/a", &twitter_hosts(), &[]));
}

#[test]
fn bsky_links() {
    assert!(is_bsky_url("https://bsky.app/profile/alice.bsky.social/post/3k", &[]));
    assert!(!is_bsky_url("https://bsky.app/profile/alice.bsky.social", &[]));
    assert_eq!(
        parse_url("https://bsky.app/profile/alice.bsky.social/post/3kabc?x=1", &[]),
        Some(("alice.bsky.social".to_string(), "3kabc".to_string()))
    );
    assert_eq!(parse_url("https://example.com/profile/a/post/b", &[]), None);
}

#[test]
fn other_service_links() {
    assert!(is_instagram_url("https://www.instagram.com/p/Cxyz/"));
    assert!(is_instagram_url("https://INSTAGRAM.com/reel/abc"));
    assert!(!is_instagram_url("https://instagram.com/someone"));
    assert!(is_tiktok_url("https://www.tiktok.com/@a/video/1"));
    assert!(is_tiktok_url("https://vm.tiktok.com/ZMabc/"));
    assert!(!is_tiktok_url("https://vxtiktok.com/@a/video/1"));
    assert!(is_reddit_url("https://www.reddit.com/r/rust/comments/abc/title/"));
    assert!(is_reddit_url("https://redd.it/abc"));
    assert!(!is_reddit_url("https://reddit.com/r/rust/"));
    assert!(is_git_platform_url("https://github.com/a/b/blob/main/src/lib.rs#L3"));
    assert!(is_git_platform_url("https://gitlab.com/a/b/-/blob/main/x.rs"));
    assert!(!is_git_platform_url("https://github.com/a/b"));
    assert_eq!(clean_file_url("https://github.com/a/b/blob/main/x.rs#L1-L2)."), "https://github.com/a/b/blob/main/x.rs#L1-L2");
}

#[test]
fn service_media_filenames() {
    assert_eq!(instagram_media_filename(0, "https://cdn/x.mp4?a"), "instagram_0.mp4");
    assert_eq!(instagram_media_filename(1, "https://cdn/x.webp"), "instagram_1.webp");
    assert_eq!(instagram_media_filename(2, "https://cdn/x.jpg"), "instagram_2.jpg");
    assert_eq!(tiktok_media_filename(0, "https://cdn/playwm/1"), "tiktok_0.mp4");
    assert_eq!(tiktok_media_filename(1, "https://cdn/img.jpeg"), "tiktok_1.jpg");
    assert!(is_mirror_media_url("https://kkinstagram.com/media/1.jpg"));
    assert!(!is_mirror_media_url("https://scontent.cdninstagram.com/1.jpg"));
    assert_eq!(reddit_media_filename(0, "https://i.redd.it/a.png"), "reddit_0.png");
    assert_eq!(reddit_media_filename(4, "https://v.redd.it/x/DASH_720.mp4"), "reddit_4.mp4");
}

#[test]
fn blocking_a_domain_blocks_its_subdomains() {
    let stored = normalize_domain("  https://WWW.Example.com/path");
    assert_eq!(stored, "example.com");
    let bl = vec![stored];
    assert!(is_url_in_blocklist("https://cdn.img.example.com/x.png", &bl));
    assert!(is_url_in_blocklist("https://WWW.Example.COM/", &bl));
    assert!(is_url_in_blocklist("http://www.www.example.com:8080/a", &bl));
    assert!(!is_url_in_blocklist("https://notexample.com/", &bl));
    assert!(!is_url_in_blocklist("https://example.com.evil.net/", &bl));
}

#[test]
fn every_toggled_service_is_gated() {
    let mut s = genesis::commands::ServerSettings::defaults("9");
    s.tiktok_enabled = false;
    s.instagram_enabled = true;
    let check = |c: &genesis::shared::SettingCheck| genesis::shared::setting_enabled(&s, c);
    assert_eq!(check(&genesis::shared::SettingCheck::TikTok), Some(false));
    assert_eq!(check(&genesis::shared::SettingCheck::Instagram), Some(true));
    assert_eq!(check(&genesis::shared::SettingCheck::Twitter), Some(true));
    assert_eq!(check(&genesis::shared::SettingCheck::Bsky), None);
    assert!(!pre_check(false, true, Some(false), true, Some(false), check(&genesis::shared::SettingCheck::TikTok)));
}
