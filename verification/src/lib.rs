//! The verified core of the Genesis Discord bot: recognizing links,
//! reading the services' responses, rendering replies and pages, and the
//! rules of its commands, throttles and caches.
use vstd::prelude::*;

pub mod text;
pub mod num;
pub mod shared;
pub mod cache;
pub mod pattern;
pub mod git_diff;
pub mod json;
pub mod pagination;
pub mod diff_links;
pub mod twitter;
pub mod instagram;
pub mod reddit;
pub mod bsky;
pub mod git_file;
pub mod file_cache;
pub mod timezones;
pub mod commands;
pub mod moderation;
pub mod help;
pub mod links;
pub mod tiktok;
pub mod streamable;
pub mod reply_watch;
pub mod mention;
pub mod reminders;
pub mod migrations;
pub mod scan;
pub mod delete_embed;
pub mod laws;
pub mod content_laws;
pub mod render;
pub mod clock;
pub mod errors;
pub mod owner;

verus! {
}
