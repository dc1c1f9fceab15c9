use genesis::json::Json;
use genesis::twitter::{parse_tweet, read_syndication, syndication_url, tweet_source, SyndicationReply, TwitterError};
use genesis::reddit::{comments_url, extract_post_id, is_share_link, parse_post as reddit_parse, post_source as reddit_source};
use genesis::instagram::{
    extract_shortcode, harvest_tokens, mobile_info_url, mirror_slide_url, parse_graphql_response, parse_media_item,
    parse_mobile_response, post_page_url, post_source as instagram_source, resolve_mirror_url, shortcode_to_media_id,
    shortcode_variables, simple_query_url, authed_query_body, form_body, MirrorScan,
};
use genesis::bsky::{did_doc_url, parse_post as bsky_parse, pds_from_doc, thread_url};
use genesis::tiktok::{api_url as tiktok_api_url, parse as tiktok_parse, read_reply, TikwmData, TikwmReply};
use genesis::streamable::{api_url as streamable_api_url, pick_file, StreamableFile, StreamablePost};
use genesis::shared::FetchTarget;

fn s(v: &str) -> Json {
    Json::Str(v.to_string())
}

fn obj(pairs: Vec<(&str, Json)>) -> Json {
    Json::Object(pairs.into_iter().map(|(k, v)| (k.to_string(), v)).collect())
}

fn tweet() -> Json {
    obj(vec![
        ("user", obj(vec![("name", s("Jack")), ("screen_name", s("jack"))])),
        ("text", s("hi &amp; https://t.co/x https://t.co/m")),
        (
            "entities",
            obj(vec![
                ("urls", Json::Array(vec![obj(vec![("url", s("https://t.co/x")), ("expanded_url", s("https://ex.com"))])])),
                ("media", Json::Array(vec![obj(vec![("url", s("https://t.co/m"))])])),
            ]),
        ),
        ("in_reply_to_screen_name", s("bob")),
        (
            "mediaDetails",
            Json::Array(vec![
                obj(vec![("type", s("photo")), ("media_url_https", s("https://pbs/p.jpg"))]),
                obj(vec![
                    ("type", s("video")),
                    (
                        "video_info",
                        obj(vec![(
                            "variants",
                            Json::Array(vec![
                                obj(vec![("content_type", s("video/mp4")), ("url", s("https://v/low.mp4")), ("bitrate", Json::Int(100))]),
                                obj(vec![("content_type", s("video/mp4")), ("url", s("https://v/high.mp4?tag=12")), ("bitrate", Json::Int(900))]),
                                obj(vec![("content_type", s("application/x-mpegURL")), ("url", s("https://v/pl.m3u8"))]),
                            ]),
                        )]),
                    ),
                ]),
            ]),
        ),
    ])
}

#[test]
fn tweet_is_read() {
    let p = parse_tweet(&tweet());
    assert_eq!(p.author, "Jack");
    assert_eq!(p.username, "jack");
    assert_eq!(p.text, "hi & https://ex.com");
    assert_eq!(p.replying_to, Some("bob".to_string()));
    assert_eq!(p.media.len(), 2);
    assert_eq!(p.media[0].url, "https://pbs/p.jpg?name=orig");
    assert!(!p.media[0].is_gif);
    assert_eq!(p.media[1].url, "https://v/high.mp4");
    assert_eq!(p.quote_author, None);
}

#[test]
fn quoted_tweets() {
    let q = obj(vec![
        ("text", s("main")),
        ("quoted_tweet", obj(vec![("user", obj(vec![("name", s("Q")), ("screen_name", s("q"))])), ("text", s("quoted"))])),
    ]);
    let p = parse_tweet(&q);
    assert_eq!(p.quote_author, Some("Q".to_string()));
    assert_eq!(p.quote_username, Some("q".to_string()));
    assert_eq!(p.quote_text, Some("quoted".to_string()));
    let empty = obj(vec![("text", s("main")), ("quoted_tweet", obj(vec![("text", s(""))]))]);
    let p2 = parse_tweet(&empty);
    assert_eq!((p2.quote_author, p2.quote_username, p2.quote_text), (None, None, None));
}

#[test]
fn card_image_when_no_media() {
    let t = obj(vec![(
        "card",
        obj(vec![(
            "binding_values",
            obj(vec![("thumbnail_image_large", obj(vec![("image_value", obj(vec![("url", s("https://card/t.jpg"))]))]))]),
        )]),
    )]);
    let p = parse_tweet(&t);
    assert_eq!(p.media.len(), 1);
    assert_eq!(p.media[0].url, "https://card/t.jpg");
}

#[test]
fn syndication_replies() {
    match read_syndication(&obj(vec![("__typename", s("TweetTombstone"))])) {
        SyndicationReply::Failed(e) => {
            assert_eq!(e, TwitterError::Deleted);
            assert_eq!(e.code(), "deleted");
            assert_eq!(e.message(), "tweet has been deleted or removed");
        }
        _ => panic!("expected a refusal"),
    }
    match read_syndication(&obj(vec![("__typename", s("TweetUnavailable"))])) {
        SyndicationReply::Failed(e) => assert_eq!(e.code(), "unavailable"),
        _ => panic!("expected a refusal"),
    }
    assert!(matches!(read_syndication(&obj(vec![])), SyndicationReply::Empty));
    assert!(matches!(read_syndication(&tweet()), SyndicationReply::Post(_)));
    assert_eq!(syndication_url("20", "4abc"), "https://cdn.syndication.twimg.com/tweet-result?id=20&token=4abc&lang=en");
}

#[test]
fn tweet_sources() {
    assert!(matches!(tweet_source("https://x.com/a/status/5", &[]), FetchTarget::Id(id) if id == "5"));
    assert!(matches!(tweet_source("https://t.co/abc", &[]), FetchTarget::Redirect));
    assert!(matches!(tweet_source("https://example.com/", &[]), FetchTarget::Unknown));
}

#[test]
fn reddit_posts() {
    let p = obj(vec![
        ("title", s("T")),
        ("author", s("u1")),
        ("subreddit_name_prefixed", s("r/rust")),
        ("selftext", s("body")),
        ("over_18", Json::Bool(true)),
        ("post_hint", s("image")),
        ("url", s("https://i.redd.it/a.png")),
    ]);
    let r = reddit_parse(Some(&p), 20).unwrap();
    assert_eq!((r.author.as_str(), r.subreddit.as_str(), r.title.as_str(), r.text.as_str()), ("u1", "r/rust", "T", "body"));
    assert_eq!(r.media, vec!["https://i.redd.it/a.png".to_string()]);
    assert!(r.nsfw && !r.spoiler);
    let removed = obj(vec![("removed_by_category", s("moderator"))]);
    assert_eq!(reddit_parse(Some(&removed), 20).err(), Some("Post was removed (moderator)".to_string()));
    let deleted = obj(vec![("selftext", s("[deleted]"))]);
    assert_eq!(reddit_parse(Some(&deleted), 20).err(), Some("Post has been deleted or removed".to_string()));
    let long = obj(vec![("selftext", s(&"a".repeat(1600)))]);
    let lp = reddit_parse(Some(&long), 20).unwrap();
    assert_eq!(lp.text, format!("{}…", "a".repeat(1500)));
    assert_eq!(lp.author, "[deleted]");
}

#[test]
fn reddit_gallery_limit() {
    let meta = obj(vec![
        ("a", obj(vec![("s", obj(vec![("u", s("https://r/a.jpg"))]))])),
        ("b", obj(vec![("s", obj(vec![("gif", s("https://r/b.gif"))]))])),
    ]);
    let p = obj(vec![
        ("is_gallery", Json::Bool(true)),
        ("gallery_data", obj(vec![("items", Json::Array(vec![obj(vec![("media_id", s("a"))]), obj(vec![("media_id", s("b"))])]))])),
        ("media_metadata", meta),
    ]);
    assert_eq!(reddit_parse(Some(&p), 20).unwrap().media, vec!["https://r/a.jpg".to_string(), "https://r/b.gif".to_string()]);
    assert_eq!(reddit_parse(Some(&p), 1).unwrap().media, vec!["https://r/a.jpg".to_string()]);
}

#[test]
fn reddit_links() {
    assert_eq!(extract_post_id("https://www.reddit.com/r/rust/comments/abc123/x/"), Some("abc123".to_string()));
    assert_eq!(extract_post_id("https://redd.it/xyz"), Some("xyz".to_string()));
    assert!(is_share_link("https://www.reddit.com/r/rust/s/AbC123"));
    assert!(matches!(reddit_source("https://www.reddit.com/r/rust/s/AbC123"), FetchTarget::Redirect));
    assert!(matches!(reddit_source("https://example.com"), FetchTarget::Unknown));
    assert_eq!(comments_url("abc"), "https://www.reddit.com/comments/abc.json?raw_json=1");
}

#[test]
fn instagram_items() {
    let item = obj(vec![
        ("owner", obj(vec![("username", s("ig"))])),
        ("edge_media_to_caption", obj(vec![("edges", Json::Array(vec![obj(vec![("node", obj(vec![("text", s("cap"))]))])]))])),
        ("__typename", s("GraphImage")),
        ("display_url", s("https://cdn/x.jpg")),
    ]);
    let p = parse_media_item(Some(&item)).unwrap();
    assert_eq!((p.author.as_str(), p.username.as_str(), p.text.as_str()), ("ig", "ig", "cap"));
    assert_eq!(p.media, vec!["https://cdn/x.jpg".to_string()]);
    let doc = obj(vec![("data", obj(vec![("xdt_shortcode_media", item)]))]);
    assert_eq!(parse_graphql_response(&doc).unwrap().media, vec!["https://cdn/x.jpg".to_string()]);
    let carousel = obj(vec![
        ("__typename", s("GraphSidecar")),
        ("edge_sidecar_to_children", obj(vec![("edges", Json::Array(vec![obj(vec![("node", obj(vec![("display_url", s("https://cdn/1.jpg"))]))])]))])),
    ]);
    assert_eq!(
        parse_media_item(Some(&carousel)).err(),
        Some("Carousel parse incomplete: typename=GraphSidecar, got 1 item(s)".to_string())
    );
    assert_eq!(parse_media_item(Some(&obj(vec![]))).err(), Some("No media found in post".to_string()));
}

#[test]
fn instagram_mobile_items() {
    let item = obj(vec![
        ("user", obj(vec![("username", s("ig")), ("full_name", s("I G"))])),
        ("caption", obj(vec![("text", s("hello"))])),
        ("video_versions", Json::Array(vec![obj(vec![("url", s("https://cdn/v.mp4"))])])),
    ]);
    let p = parse_mobile_response(Some(&item)).unwrap();
    assert_eq!((p.author.as_str(), p.username.as_str(), p.text.as_str()), ("I G", "ig", "hello"));
    assert_eq!(p.media, vec!["https://cdn/v.mp4".to_string()]);
}

#[test]
fn instagram_ids_and_urls() {
    assert_eq!(extract_shortcode("https://www.instagram.com/p/Cxyz_1-/?img=1"), Some("Cxyz_1-".to_string()));
    assert_eq!(extract_shortcode("https://example.com/p/abc"), None);
    assert!(matches!(instagram_source("https://www.instagram.com/reel/abc/"), FetchTarget::Id(c) if c == "abc"));
    assert!(matches!(instagram_source("https://www.instagram.com/share/xyz"), FetchTarget::Redirect));
    assert_eq!(shortcode_to_media_id("B"), Some(1));
    assert_eq!(shortcode_to_media_id("BA"), Some(64));
    assert_eq!(shortcode_to_media_id("_"), Some(63));
    assert_eq!(shortcode_to_media_id("B!B"), Some(65));
    assert_eq!(shortcode_to_media_id("__________________"), None);
    assert_eq!(mobile_info_url(65), "https://i.instagram.com/api/v1/media/65/info/");
    assert_eq!(post_page_url("abc"), "https://www.instagram.com/p/abc/");
    assert_eq!(mirror_slide_url("kkinstagram.com", "abc", 2), "https://kkinstagram.com/p/abc/2");
    assert_eq!(resolve_mirror_url(&['h', '.', 'c'], &['/', 'x']), vec!['h', 't', 't', 'p', 's', ':', '/', '/', 'h', '.', 'c', '/', 'x']);
    let v = shortcode_variables("abc").unwrap();
    assert_eq!(v, "{\"shortcode\":\"abc\"}");
    assert_eq!(
        shortcode_variables("a\"b\\c\nd\u{1}e/\u{e9}").unwrap(),
        "{\"shortcode\":\"a\\\"b\\\\c\\nd\\u0001e/\u{e9}\"}"
    );
    assert_eq!(
        simple_query_url(&v, "42"),
        "https://www.instagram.com/graphql/query?variables=%7B%22shortcode%22%3A%22abc%22%7D&doc_id=42&server_timestamps=true"
    );
}

#[test]
fn instagram_tokens_and_forms() {
    let html = r#"x "LSD",[],{"token":"L1"} "csrf_token":"C1" "device_id":"D1""#;
    let t = harvest_tokens(html).unwrap();
    assert_eq!(t.lsd, "L1");
    assert_eq!(t.csrf, "C1");
    assert_eq!(t.bloks_version, "");
    assert_eq!(t.cookie, "csrftoken=C1; ig_did=D1; wd=1280x720; dpr=2; ig_nrcb=1");
    assert!(harvest_tokens("no tokens here").is_none());
    assert_eq!(form_body(&[("a b", "c&d"), ("x", "é")]), "a%20b=c%26d&x=%C3%A9");
    let body = authed_query_body("L", "{}", "7");
    assert!(body.starts_with("__d=www&__a=1&__req=b&__user=0&__comet_req=7&av=0&dpr=2&lsd=L&"));
    assert!(body.ends_with("&variables=%7B%7D&server_timestamps=true&doc_id=7"));
}

#[test]
fn mirror_pages() {
    let page1 = r#"<meta property="og:title" content="@user (Name)"><meta property="og:description" content="a &amp; b"><meta property="og:image" content="/img1.jpg">"#;
    let page2 = r#"<meta property="og:video" content="//cdn/v2.mp4">"#;
    let mut scan = MirrorScan::new();
    assert!(scan.read_slide("kkinstagram.com", 1, page1));
    assert!(scan.read_slide("kkinstagram.com", 2, page2));
    assert!(!scan.read_slide("kkinstagram.com", 3, page2));
    let post = scan.finish().unwrap();
    assert_eq!(post.username, "user");
    assert_eq!(post.author, "user");
    assert_eq!(post.text, "a & b");
    assert_eq!(post.media, vec!["https://kkinstagram.com/img1.jpg".to_string(), "https://cdn/v2.mp4".to_string()]);
    assert!(MirrorScan::new().finish().is_none());
}

#[test]
fn bsky_posts() {
    let post = obj(vec![
        ("author", obj(vec![("handle", s("a.bsky.social")), ("displayName", s("")), ("did", s("did:plc:x"))])),
        ("record", obj(vec![("text", s("hello"))])),
    ]);
    let p = bsky_parse(&post, None);
    assert_eq!(p.author, "a.bsky.social");
    assert_eq!(p.handle, "a.bsky.social");
    assert_eq!(p.text, "hello");
    assert!(p.media.is_empty());
    assert_eq!(did_doc_url("did:web:example.com"), "https://example.com/.well-known/did.json");
    assert_eq!(did_doc_url("did:plc:abc"), "https://plc.directory/did:plc:abc");
    let doc = obj(vec![(
        "service",
        Json::Array(vec![obj(vec![("id", s("#atproto_pds")), ("serviceEndpoint", s("https://pds.example"))])]),
    )]);
    assert_eq!(pds_from_doc(&doc), Some("https://pds.example".to_string()));
    assert_eq!(
        thread_url("a.bsky.social", "3k"),
        "https://public.api.bsky.app/xrpc/app.bsky.feed.getPostThread?uri=at%3A%2F%2Fa.bsky.social%2Fapp.bsky.feed.post%2F3k"
    );
}

#[test]
fn tiktok_posts() {
    assert_eq!(
        tiktok_parse("https://www.tiktok.com/@user/video/123456", &[]),
        Some("https://vm.tiktok.com/123456".to_string())
    );
    assert_eq!(tiktok_parse("https://vm.tiktok.com/ZMabc/", &[]), Some("https://vm.tiktok.com/ZMabc".to_string()));
    assert_eq!(tiktok_parse("https://www.tiktok.com/t/ZT123/", &[]), Some("https://vm.tiktok.com/ZT123".to_string()));
    assert_eq!(tiktok_parse("https://www.tiktok.com/@user", &[]), None);
    assert_eq!(tiktok_parse("https://example.com/@u/video/1", &[]), None);
    assert_eq!(tiktok_api_url("https://vm.tiktok.com/a"), "https://www.tikwm.com/api/?url=https%3A%2F%2Fvm.tiktok.com%2Fa");
    let data = TikwmData {
        title: "t".to_string(),
        nickname: "N".to_string(),
        unique_id: "n".to_string(),
        images: vec![],
        play: Some("https://v.mp4".to_string()),
    };
    let p = read_reply(TikwmReply { code: 0, msg: String::new(), data: Some(data) }).unwrap();
    assert_eq!((p.author.as_str(), p.username.as_str(), p.text.as_str()), ("N", "n", "t"));
    assert_eq!(p.media, vec!["https://v.mp4".to_string()]);
    assert_eq!(
        read_reply(TikwmReply { code: -1, msg: "bad".to_string(), data: None }).err(),
        Some("API error: bad".to_string())
    );
    assert_eq!(
        read_reply(TikwmReply { code: 0, msg: String::new(), data: None }).err(),
        Some("No data returned from TikTok API".to_string())
    );
    let nomedia = TikwmData { title: String::new(), nickname: String::new(), unique_id: String::new(), images: vec![], play: None };
    assert_eq!(
        read_reply(TikwmReply { code: 0, msg: String::new(), data: Some(nomedia) }).err(),
        Some("No media found in TikTok post".to_string())
    );
}

#[test]
fn streamable_videos() {
    assert_eq!(StreamablePost::extract_shortcode("https://streamable.com/e/abc12", &[]), Some("abc12".to_string()));
    assert_eq!(StreamablePost::extract_shortcode("https://example.com/abc", &[]), None);
    assert_eq!(streamable_api_url("abc"), "https://api.streamable.com/videos/abc");
    let big = Some(StreamableFile { url: Some("https://s/big.mp4".to_string()), size: Some(100) });
    let small = Some(StreamableFile { url: Some("https://s/small.mp4".to_string()), size: None });
    assert_eq!(pick_file(&big, &small, 50), Some("https://s/small.mp4".to_string()));
    assert_eq!(pick_file(&big, &small, 100), Some("https://s/big.mp4".to_string()));
    assert_eq!(pick_file(&None, &None, 100), None);
    let ok = StreamablePost::from_reply(2, None, &big, &small, 50).ok().unwrap();
    assert_eq!((ok.title.as_str(), ok.video_url.as_str()), ("", "https://s/small.mp4"));
    assert_eq!(StreamablePost::from_reply(1, None, &big, &small, 50).err(), Some("Streamable video is not ready".to_string()));
    assert_eq!(
        StreamablePost::from_reply(2, Some("x".to_string()), &big, &None, 50).err(),
        Some("No playable Streamable video (it may be too large to re-upload)".to_string())
    );
}
