use genesis::pagination::{
    clamp_page, create_file_pagination_buttons, create_pagination_buttons, decode_diff_button, decode_file_button,
    diff_button_id, extract_sent_by_footer, first_page_message, is_cache_expired, nav_target, page_update,
    pagination_row, sent_by_footer, snippet_message, split_lock_suffix, ButtonAction, PageNav,
};
use genesis::git_diff::{CommitDiff, GitPlatform};
use genesis::cache::{DiffCache, HandledMessages, RateLimiter, ReportDedup};
use genesis::file_cache::{cache_key, hex16, FileCache, PageLookup};
use genesis::git_file::GitFileLink;
use genesis::reply_watch::{deleted_by_other, AuditEntry, ReplyWatches, Watch};
use genesis::migrations::{is_migration_file, migration_files, sort_names, split_statements};
use genesis::diff_links::select_commit_diffs;

fn chars(s: &str) -> Vec<char> {
    s.chars().collect()
}

#[test]
fn nav_and_rows() {
    assert_eq!(nav_target(PageNav::Prev, 0), Some(0));
    assert_eq!(nav_target(PageNav::Prev, 3), Some(2));
    assert_eq!(nav_target(PageNav::Next, 3), Some(4));
    assert_eq!(nav_target(PageNav::Next, usize::MAX), None);
    let row = pagination_row("p".to_string(), "n".to_string(), 0, 3);
    assert_eq!(row.label, "1/3");
    assert!(row.prev_disabled && !row.next_disabled);
    let last = pagination_row("p".to_string(), "n".to_string(), 2, 3);
    assert!(!last.prev_disabled && last.next_disabled);
    assert_eq!(clamp_page(9, 3), 2);
    assert_eq!(clamp_page(1, 3), 1);
    assert!(!is_cache_expired(0, 600_999));
    assert!(is_cache_expired(0, 601_000));
}

#[test]
fn locks() {
    assert_eq!(split_lock_suffix("abc_2:77"), ("abc_2".to_string(), Some(77)));
    assert_eq!(split_lock_suffix("abc_2"), ("abc_2".to_string(), None));
    assert_eq!(split_lock_suffix("a:b"), ("a:b".to_string(), None));
}

#[test]
fn footers() {
    assert_eq!(sent_by_footer(42), "\n-# Sent by <@42>");
    assert_eq!(extract_sent_by_footer("page text\n-# Sent by <@42> extra"), Some("\n-# Sent by <@42>".to_string()));
    assert_eq!(extract_sent_by_footer("no footer"), None);
    let pages = vec!["one".to_string(), "two".to_string()];
    assert_eq!(page_update(&pages, 1, "one\n-# Sent by <@42>"), Some("two\n-# Sent by <@42>".to_string()));
    assert_eq!(page_update(&pages, 1, "one"), Some("two".to_string()));
    assert_eq!(page_update(&pages, 2, "x"), None);
    // A page with its footer reads the footer back.
    let msg = first_page_message("body", 7).unwrap();
    assert_eq!(msg, "body\n-# Sent by <@7>");
    assert_eq!(extract_sent_by_footer(&msg), Some(sent_by_footer(7)));
    assert_eq!(first_page_message(&"x".repeat(1990), 7), None);
}

#[test]
fn snippets() {
    assert_eq!(snippet_message("```rs\nx\n```", 1), "```rs\nx\n```\n-# Sent by <@1>");
    let long = "y".repeat(1990);
    let out = snippet_message(&long, 1);
    assert_eq!(out, format!("{}...\n```\n(Content too long)\n-# Sent by <@1>", "y".repeat(1950)));
}

#[test]
fn replies_fit_in_a_message() {
    let wide = "é".repeat(3000);
    let out = snippet_message(&wide, u64::MAX);
    assert!(out.len() <= 2000);
    assert!(out.ends_with("...\n```\n(Content too long)\n-# Sent by <@18446744073709551615>"));
    let page = "z".repeat(1984);
    assert_eq!(first_page_message(&page, 1).map(|m| m.len()), Some(2000));
    assert_eq!(first_page_message(&format!("{}z", page), 1), None);
}

#[test]
fn diff_buttons_round_trip() {
    let commit = CommitDiff::parse("https://github.com/o/r/commit/abc123").unwrap();
    let id = diff_button_id(PageNav::Next, &commit, 2, Some(99));
    assert_eq!(id, "diff:next:gh:o:r:abc123_2:99");
    match decode_diff_button(&id, 99) {
        ButtonAction::Turn(b) => {
            assert_eq!(b.direction, PageNav::Next);
            assert_eq!(b.page, 2);
            assert_eq!(b.lock, Some(99));
            assert_eq!((b.commit.owner.as_str(), b.commit.repo.as_str(), b.commit.commit.as_str()), ("o", "r", "abc123"));
            assert_eq!(b.commit.platform, GitPlatform::GitHub);
        }
        _ => panic!("expected a page turn"),
    }
    assert!(matches!(decode_diff_button(&id, 5), ButtonAction::Locked));
    assert!(matches!(decode_diff_button("file:next:k_1", 5), ButtonAction::Ignore));
    let mut gl = CommitDiff::parse("https://git.example.org/g/p/-/compare/a...b").unwrap();
    gl.file_filter = Some("x.rs".to_string());
    let gid = diff_button_id(PageNav::Prev, &gl, 0, None);
    assert_eq!(gid, "diff:prev:gL|git.example.org:g:p:a...b|x.rs_0");
    match decode_diff_button(&gid, 1) {
        ButtonAction::Turn(b) => {
            assert!(b.commit.is_compare);
            assert_eq!(b.commit.host, Some("git.example.org".to_string()));
            assert_eq!(b.commit.file_filter, Some("x.rs".to_string()));
            assert_eq!(b.commit.commit, "a...b");
        }
        _ => panic!("expected a page turn"),
    }
    let row = create_pagination_buttons(0, 2, &commit, None);
    assert_eq!(row.prev_id, "diff:prev:gh:o:r:abc123_0");
    assert_eq!(row.next_id, "diff:next:gh:o:r:abc123_0");
}

#[test]
fn file_buttons_round_trip() {
    let row = create_file_pagination_buttons("00ab", 1, 4, Some(8));
    assert_eq!(row.prev_id, "file:prev:00ab_1:8");
    assert_eq!(row.next_id, "file:next:00ab_1:8");
    assert_eq!(row.label, "2/4");
    match decode_file_button(&row.next_id, 8) {
        ButtonAction::Turn(b) => {
            assert_eq!(b.direction, PageNav::Next);
            assert_eq!(b.key, "00ab");
            assert_eq!(b.page, 1);
        }
        _ => panic!("expected a page turn"),
    }
    assert!(matches!(decode_file_button(&row.next_id, 9), ButtonAction::Locked));
    assert!(matches!(decode_file_button("file:next:nopage", 9), ButtonAction::Ignore));
}

#[test]
fn rate_limits_block_repeats_within_the_window() {
    let mut rl = RateLimiter::new();
    assert!(rl.check_rate_limit(1, "twitter", 0));
    assert!(!rl.check_rate_limit(1, "twitter", 9_999));
    assert!(rl.check_rate_limit(1, "tiktok", 5_000));
    assert!(rl.check_rate_limit(2, "twitter", 5_000));
    assert!(rl.check_rate_limit(1, "twitter", 10_000));
}

#[test]
fn report_dedup() {
    let mut d = ReportDedup::new();
    assert!(d.should_report("g1", "twitter", "fetch_failed", 0));
    assert!(!d.should_report("g1", "twitter", "fetch_failed", 599_999));
    assert!(d.should_report("global", "twitter", "fetch_failed", 1));
    assert!(d.should_report("g1", "twitter", "fetch_failed", 600_000));
}

#[test]
fn handled_messages_window() {
    let mut h = HandledMessages::new();
    assert!(!h.was_message_handled(5, 0));
    h.mark_message_handled(5, 1_000);
    assert!(h.was_message_handled(5, 1_000));
    assert!(h.was_message_handled(5, 3_600_999));
    assert!(!h.was_message_handled(5, 3_601_000));
    assert!(!h.was_message_handled(6, 1_000));
}

#[test]
fn diff_cache_reads_back_what_was_written() {
    let mut c = DiffCache::new();
    let pages = vec!["a".to_string(), "b".to_string()];
    c.cache_responses(chars("k"), pages.clone(), 0);
    assert_eq!(c.get_cached_responses(&chars("k"), 600_999), Some(pages));
    assert_eq!(c.get_cached_responses(&chars("other"), 0), None);
    assert_eq!(c.get_cached_responses(&chars("k"), 601_000), None);
    assert_eq!(c.get_cached_responses(&chars("k"), 0), None);
}

#[test]
fn hex_keys() {
    assert_eq!(hex16(0), "0000000000000000");
    assert_eq!(hex16(255), "00000000000000ff");
    assert_eq!(hex16(u64::MAX), "ffffffffffffffff");
    assert_eq!(hex16(0x0123_4567_89ab_cdef), "0123456789abcdef");
    assert_eq!(cache_key("a"), cache_key("a"));
    assert_ne!(cache_key("a"), cache_key("b"));
}

#[test]
fn file_cache_pages() {
    let link = GitFileLink::parse("https://github.com/o/r/blob/m/a.rs").unwrap();
    let raw = link.raw_url.clone();
    let mut fc = FileCache::new();
    let key = fc.cache_pages(link, vec!["p1".to_string(), "p2".to_string()], 0);
    let mut hasher = std::hash::DefaultHasher::new();
    std::hash::Hash::hash(raw.as_str(), &mut hasher);
    assert_eq!(key, format!("{:016x}", std::hash::Hasher::finish(&hasher)));
    assert_eq!(key, cache_key(&raw));
    assert_eq!(key.len(), 16);
    let key1 = key.as_str();
    match fc.lookup(key1, 5, 1_000) {
        PageLookup::Page(content, page, total) => {
            assert_eq!((content.as_str(), page, total), ("p2", 1, 2));
        }
        _ => panic!("expected a page"),
    }
    assert!(matches!(fc.lookup("nope", 0, 0), PageLookup::Missing));
    match fc.lookup(key1, 0, 700_000) {
        PageLookup::Refresh(l) => assert_eq!(l.file_name, "a.rs"),
        _ => panic!("expected a refresh"),
    }
    assert_eq!(fc.refresh(key1, vec!["n1".to_string()], 3, 700_000), Some(("n1".to_string(), 0, 1)));
    assert!(matches!(fc.lookup(key1, 0, 700_001), PageLookup::Page(..)));
    assert_eq!(fc.refresh(key1, vec![], 0, 0), None);
}

#[test]
fn reply_watches() {
    let mut w = ReplyWatches::new();
    let watch = Watch { reply_id: 2, channel_id: 3, author_id: 4 };
    w.watch(1, watch, 0);
    let found = w.take(1, 59_999).unwrap();
    assert_eq!((found.reply_id, found.channel_id, found.author_id), (2, 3, 4));
    assert!(w.take(1, 0).is_none());
    w.watch(7, watch, 0);
    assert!(w.take(7, 60_000).is_none());
    let entries = vec![
        AuditEntry { target_id: Some(4), channel_id: Some(3), user_id: Some(4), created_at: 100 },
        AuditEntry { target_id: Some(4), channel_id: Some(3), user_id: Some(9), created_at: 100 },
    ];
    assert!(deleted_by_other(&entries, 4, 3, 150));
    assert!(!deleted_by_other(&entries, 4, 3, 220));
    assert!(!deleted_by_other(&entries[..1], 4, 3, 150));
    assert!(!deleted_by_other(&entries, 4, 8, 150));
}

#[test]
fn migrations_order() {
    let names: Vec<String> = ["003_c.sql", "001_a.sql", "notes.txt", ".sql", "002_b.sql", "x.SQL"]
        .iter()
        .map(|s| s.to_string())
        .collect();
    assert_eq!(migration_files(&names), vec!["001_a.sql", "002_b.sql", "003_c.sql"]);
    assert!(is_migration_file("a.sql"));
    assert!(!is_migration_file(".sql"));
    assert!(is_migration_file("..sql"));
    assert!(!is_migration_file("a.sql.bak"));
    let mixed: Vec<String> = ["b", "B", "a", "é", "ab", "a"].iter().map(|s| s.to_string()).collect();
    assert_eq!(sort_names(&mixed), vec!["B", "a", "a", "ab", "b", "é"]);
    assert_eq!(split_statements(" CREATE TABLE a (x INT);\n\n; INSERT INTO a VALUES (1) ; "), vec!["CREATE TABLE a (x INT)", "INSERT INTO a VALUES (1)"]);
}

#[test]
fn commit_diff_selection() {
    let mut rl = RateLimiter::new();
    let found = select_commit_diffs("https://github.com/o/r/commit/abc1 src/x.rs", 1, 0, &mut rl, true, &[]);
    assert_eq!(found.len(), 1);
    assert_eq!(found[0].file_filter, None);
    let mut rl1 = RateLimiter::new();
    let two = select_commit_diffs(
        "https://github.com/o/r/commit/abc1 x.rs https://github.com/o/r/commit/def2",
        1,
        0,
        &mut rl1,
        true,
        &[],
    );
    assert_eq!(two.len(), 2);
    assert_eq!(two[0].file_filter, Some("x.rs".to_string()));
    assert_eq!(two[1].file_filter, None);
    assert!(select_commit_diffs("https://github.com/o/r/commit/abc1", 1, 5_000, &mut rl1, true, &[]).is_empty());
    let mut rl2 = RateLimiter::new();
    assert!(select_commit_diffs("look at https://github.com/o/r/commit/abc1", 1, 0, &mut rl2, true, &[]).is_empty());
    let mut rl3 = RateLimiter::new();
    assert!(select_commit_diffs("https://github.com/o/r/compare/a...b", 1, 0, &mut rl3, false, &[]).is_empty());
    let mut rl4 = RateLimiter::new();
    assert!(select_commit_diffs("https://github.com/o/r/commit/abc1", 1, 0, &mut rl4, true, &["github.com".to_string()]).is_empty());
}
