# genesis

Genesis is a Discord bot that embeds the media behind links (Twitter/X,
Instagram, TikTok, Reddit, Bluesky, Streamable), posts code snippets and
paged commit diffs for links to GitHub, GitLab, Gitea and rustdoc sources,
and offers reminders, time zone lookups, welcome messages and moderation
commands.

## Layout

- `src/` is the library, verified with Verus: link recognition and
  cleaning, the blocklist, the parsers of each service's responses, diff and
  file rendering, the pagination button ids, the throttles and caches, the
  reminder and duration rules, and the reply texts of every command. Each
  public function states what it returns in its contract; `src/laws.rs` and
  the `lemma_*` proof functions state the properties that span several
  calls.
- `app/` is the bot itself: the Discord client, the database, the HTTP
  requests, and the loop that hands each event to the library and performs
  what it decides.
- `tests/` runs the library on concrete inputs.

Calls into `regex`, `urlencoding`, `serde_json`, `chrono` and `chrono-tz`
(and into the standard library's `DefaultHasher` and `to_uppercase`) that
the library makes go through small wrappers whose contracts say what those
crates document.
