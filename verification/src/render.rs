//! The text that heads each media reply: who posted, what they wrote, and
//! what they replied to or quoted.
use vstd::prelude::*;
use crate::text::{append, append_str, eq_exec, from_chars, replace, replace_str, to_chars};
use crate::git_diff::opt_view;
use crate::twitter::TwitterPost;
use crate::instagram::InstagramPost;
use crate::tiktok::TikTokPost;
use crate::reddit::RedditPost;
use crate::bsky::BskyPost;
use crate::num::{decimal, decimal_exec};

verus! {

/// Text quoted line by line: every line break starts a quoted line.
pub open spec fn quoted(s: Seq<char>) -> Seq<char> {
    replace(s, "\n"@, "\n> "@)
}

fn quoted_exec(s: &str) -> (r: Vec<char>)
    ensures
        r@ == quoted(s@),
{
    proof {
        reveal_strlit("\n");
    }
    replace_str(to_chars(s).as_slice(), "\n", "\n> ")
}

fn nonempty(s: &str) -> (r: bool)
    ensures
        r == (s@.len() > 0),
{
    to_chars(s).len() > 0
}

/// A line break and the text, when there is text.
pub open spec fn text_line(t: Seq<char>) -> Seq<char> {
    if t.len() == 0 {
        seq![]
    } else {
        "\n"@ + t
    }
}

/// The heading of a tweet: author and handle, the account it replies to,
/// its text, and the quoted tweet when its author, handle and text are all
/// known.
pub open spec fn twitter_text_spec(
    author: Seq<char>,
    username: Seq<char>,
    text: Seq<char>,
    replying_to: Option<Seq<char>>,
    quote: (Option<Seq<char>>, Option<Seq<char>>, Option<Seq<char>>),
) -> Seq<char> {
    let head = "**"@ + author + "** (@"@ + username + ")"@;
    let reply = match replying_to {
        Some(r) => "\nReplying to @"@ + r,
        None => seq![],
    };
    let q = match quote {
        (Some(qa), Some(qu), Some(qt)) => "\n\n> **"@ + qa + "** (@"@ + qu + ")\n> "@ + quoted(qt),
        _ => seq![],
    };
    head + reply + text_line(text) + q
}

pub fn twitter_post_text(post: &TwitterPost) -> (r: String)
    ensures
        r@ == twitter_text_spec(
            post.author@,
            post.username@,
            post.text@,
            opt_view(post.replying_to),
            (opt_view(post.quote_author), opt_view(post.quote_username), opt_view(post.quote_text)),
        ),
{
    let mut out = to_chars("**");
    append_str(&mut out, post.author.as_str());
    append_str(&mut out, "** (@");
    append_str(&mut out, post.username.as_str());
    append_str(&mut out, ")");
    if let Some(r) = &post.replying_to {
        append_str(&mut out, "\nReplying to @");
        append_str(&mut out, r.as_str());
    }
    if nonempty(post.text.as_str()) {
        append_str(&mut out, "\n");
        append_str(&mut out, post.text.as_str());
    } else {
    }
    match (&post.quote_author, &post.quote_username, &post.quote_text) {
        (Some(qa), Some(qu), Some(qt)) => {
            append_str(&mut out, "\n\n> **");
            append_str(&mut out, qa.as_str());
            append_str(&mut out, "** (@");
            append_str(&mut out, qu.as_str());
            append_str(&mut out, ")\n> ");
            append(&mut out, quoted_exec(qt.as_str()).as_slice());
        },
        _ => {},
    }
    from_chars(out.as_slice())
}

/// The heading of an Instagram post: the handle (with the display name
/// when it differs), or the name alone, or `Instagram`; then the caption.
pub open spec fn instagram_text_spec(author: Seq<char>, username: Seq<char>, text: Seq<char>) -> Seq<char> {
    let head = if username.len() == 0 {
        if author.len() == 0 {
            "**Instagram**"@
        } else {
            "**"@ + author + "**"@
        }
    } else if author.len() == 0 || author == username {
        "**@"@ + username + "**"@
    } else {
        "**"@ + author + "** (@"@ + username + ")"@
    };
    head + text_line(text)
}

pub fn instagram_post_text(post: &InstagramPost) -> (r: String)
    ensures
        r@ == instagram_text_spec(post.author@, post.username@, post.text@),
{
    let a = to_chars(post.author.as_str());
    let u = to_chars(post.username.as_str());
    let mut out = if u.len() == 0 {
        if a.len() == 0 {
            to_chars("**Instagram**")
        } else {
            let mut o = to_chars("**");
            append(&mut o, a.as_slice());
            append_str(&mut o, "**");
            o
        }
    } else if a.len() == 0 || eq_exec(a.as_slice(), u.as_slice()) {
        let mut o = to_chars("**@");
        append(&mut o, u.as_slice());
        append_str(&mut o, "**");
        o
    } else {
        let mut o = to_chars("**");
        append(&mut o, a.as_slice());
        append_str(&mut o, "** (@");
        append(&mut o, u.as_slice());
        append_str(&mut o, ")");
        o
    };
    if nonempty(post.text.as_str()) {
        append_str(&mut out, "\n");
        append_str(&mut out, post.text.as_str());
    }
    from_chars(out.as_slice())
}

/// The heading of a TikTok post: author and handle, then the text.
pub open spec fn tiktok_text_spec(author: Seq<char>, username: Seq<char>, text: Seq<char>) -> Seq<char> {
    "**"@ + author + "** (@"@ + username + ")"@ + text_line(text)
}

pub fn tiktok_post_text(post: &TikTokPost) -> (r: String)
    ensures
        r@ == tiktok_text_spec(post.author@, post.username@, post.text@),
{
    let mut out = to_chars("**");
    append_str(&mut out, post.author.as_str());
    append_str(&mut out, "** (@");
    append_str(&mut out, post.username.as_str());
    append_str(&mut out, ")");
    if nonempty(post.text.as_str()) {
        append_str(&mut out, "\n");
        append_str(&mut out, post.text.as_str());
    }
    from_chars(out.as_slice())
}

/// The heading of a Reddit post: title and author (with the subreddit
/// when known), its NSFW and spoiler tags, then the text after a blank
/// line.
pub open spec fn reddit_text_spec(
    title: Seq<char>,
    subreddit: Seq<char>,
    author: Seq<char>,
    nsfw: bool,
    spoiler: bool,
    text: Seq<char>,
) -> Seq<char> {
    let head = if subreddit.len() == 0 {
        "**"@ + title + "** by u/"@ + author
    } else {
        "**"@ + title + "**\n"@ + subreddit + " · u/"@ + author
    };
    let tags = if nsfw && spoiler {
        " · NSFW · Spoiler"@
    } else if nsfw {
        " · NSFW"@
    } else if spoiler {
        " · Spoiler"@
    } else {
        seq![]
    };
    let body = if text.len() == 0 {
        seq![]
    } else {
        "\n\n"@ + text
    };
    head + tags + body
}

pub fn reddit_post_text(post: &RedditPost) -> (r: String)
    ensures
        r@ == reddit_text_spec(post.title@, post.subreddit@, post.author@, post.nsfw, post.spoiler, post.text@),
{
    let mut out = to_chars("**");
    append_str(&mut out, post.title.as_str());
    if !nonempty(post.subreddit.as_str()) {
        append_str(&mut out, "** by u/");
        append_str(&mut out, post.author.as_str());
    } else {
        append_str(&mut out, "**\n");
        append_str(&mut out, post.subreddit.as_str());
        append_str(&mut out, " · u/");
        append_str(&mut out, post.author.as_str());
    }
    if post.nsfw && post.spoiler {
        append_str(&mut out, " · NSFW · Spoiler");
    } else if post.nsfw {
        append_str(&mut out, " · NSFW");
    } else if post.spoiler {
        append_str(&mut out, " · Spoiler");
    }
    if nonempty(post.text.as_str()) {
        append_str(&mut out, "\n\n");
        append_str(&mut out, post.text.as_str());
    }
    from_chars(out.as_slice())
}

pub open spec fn bsky_head_spec(author: Seq<char>, handle: Seq<char>) -> Seq<char> {
    if author == handle {
        "**@"@ + handle + "**"@
    } else {
        "**"@ + author + "** (@"@ + handle + ")"@
    }
}

pub open spec fn bsky_card_spec(external: Option<(Seq<char>, Seq<char>)>) -> Seq<char> {
    match external {
        Some((t, u)) => "\n\n["@ + t + "]("@ + u + ")"@,
        None => seq![],
    }
}

pub open spec fn bsky_quote_spec(quote_author: Option<Seq<char>>, quote_text: Option<Seq<char>>) -> Seq<char> {
    match quote_author {
        Some(qa) => "\n\n> **"@ + qa + "**\n> "@ + quoted(
            match quote_text {
                Some(t) => t,
                None => seq![],
            },
        ),
        None => seq![],
    }
}

/// The heading of a Bluesky post: the handle (with the display name when it
/// differs), the text, a linked card, and the quoted post.
pub open spec fn bsky_text_spec(
    author: Seq<char>,
    handle: Seq<char>,
    text: Seq<char>,
    external: Option<(Seq<char>, Seq<char>)>,
    quote_author: Option<Seq<char>>,
    quote_text: Option<Seq<char>>,
) -> Seq<char> {
    bsky_head_spec(author, handle) + text_line(text) + bsky_card_spec(external) + bsky_quote_spec(
        quote_author,
        quote_text,
    )
}

fn bsky_head(author: &str, handle: &str) -> (r: Vec<char>)
    ensures
        r@ == bsky_head_spec(author@, handle@),
{
    let a = to_chars(author);
    let h = to_chars(handle);
    if eq_exec(a.as_slice(), h.as_slice()) {
        let mut o = to_chars("**@");
        append(&mut o, h.as_slice());
        append_str(&mut o, "**");
        o
    } else {
        let mut o = to_chars("**");
        append(&mut o, a.as_slice());
        append_str(&mut o, "** (@");
        append(&mut o, h.as_slice());
        append_str(&mut o, ")");
        o
    }
}

fn bsky_card(external: &Option<(String, String)>) -> (r: Vec<char>)
    ensures
        r@ == bsky_card_spec(match external {
            Some((t, u)) => Some((t@, u@)),
            None => None,
        }),
{
    match external {
        Some((t, u)) => {
            let mut out = to_chars("\n\n[");
            append_str(&mut out, t.as_str());
            append_str(&mut out, "](");
            append_str(&mut out, u.as_str());
            append_str(&mut out, ")");
            out
        },
        None => Vec::new(),
    }
}

fn bsky_quote(quote_author: &Option<String>, quote_text: &Option<String>) -> (r: Vec<char>)
    ensures
        r@ == bsky_quote_spec(opt_view(*quote_author), opt_view(*quote_text)),
{
    match quote_author {
        Some(qa) => {
            let mut out = to_chars("\n\n> **");
            append_str(&mut out, qa.as_str());
            append_str(&mut out, "**\n> ");
            let qt: &str = match quote_text {
                Some(t) => t.as_str(),
                None => "",
            };
            proof {
                reveal_strlit("");
            }
            append(&mut out, quoted_exec(qt).as_slice());
            out
        },
        None => Vec::new(),
    }
}

pub fn bsky_post_text(post: &BskyPost) -> (r: String)
    ensures
        r@ == bsky_text_spec(
            post.author@,
            post.handle@,
            post.text@,
            match post.external {
                Some((t, u)) => Some((t@, u@)),
                None => None,
            },
            opt_view(post.quote_author),
            opt_view(post.quote_text),
        ),
{
    let mut out = bsky_head(post.author.as_str(), post.handle.as_str());
    if nonempty(post.text.as_str()) {
        append_str(&mut out, "\n");
        append_str(&mut out, post.text.as_str());
    }
    append(&mut out, bsky_card(&post.external).as_slice());
    append(&mut out, bsky_quote(&post.quote_author, &post.quote_text).as_slice());
    from_chars(out.as_slice())
}

/// The title line of a Streamable video, when it has a title.
pub fn streamable_title_text(title: &str) -> (r: Option<String>)
    ensures
        title@.len() == 0 ==> r is None,
        title@.len() > 0 ==> (r matches Some(t) && t@ == "**"@ + title@ + "**"@),
{
    let c = to_chars(title);
    if c.len() == 0 {
        None
    } else {
        let mut out = to_chars("**");
        append(&mut out, c.as_slice());
        append_str(&mut out, "**");
        Some(from_chars(out.as_slice()))
    }
}

/// The line under a media reply that names who posted the link.
pub fn sent_by_line(user: u64) -> (r: String)
    ensures
        r@ == "-# Sent by <@"@ + decimal(user as nat) + ">"@,
{
    let mut out = to_chars("-# Sent by <@");
    append(&mut out, decimal_exec(user).as_slice());
    append_str(&mut out, ">");
    from_chars(out.as_slice())
}

/// How a reply refers to an uploaded file.
pub fn attachment_url(filename: &str) -> (r: String)
    ensures
        r@ == "attachment://"@ + filename@,
{
    let mut out = to_chars("attachment://");
    append_str(&mut out, filename);
    from_chars(out.as_slice())
}

} // verus!
