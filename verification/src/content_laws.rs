//! What the service parsers and the renderers promise of every input: how
//! a diff's changes are counted, how much indentation a snippet loses,
//! which video variant a tweet links, which images a Bluesky post shows,
//! and what a Reddit video post links.
use vstd::prelude::*;
use crate::json::{Json, jarr, jbool, jget, jget_str, jget_str_or_empty, jint};
use crate::text::{byte_len, lines, starts_with, trim, contains};
use crate::moderation::count_where;
use crate::git_diff::{parse_file_diff_spec, scan_lines, MAX_DIFF_CHARS_PER_FILE};
use crate::git_file::{indent_bytes, min_indent};
use crate::twitter::{best_variant, best_video_spec, strip_tag};
use crate::bsky::{fullsize_images, parse_embed_spec};
use crate::reddit::{extract_media_spec, gallery_item_url, gallery_urls};

verus! {

/// Counting over a sequence with one more item adds that item's count.
proof fn lemma_count_push<A>(s: Seq<A>, x: A, p: spec_fn(A) -> bool)
    ensures
        count_where(s.push(x), p) == count_where(s, p) + if p(x) { 1nat } else { 0nat },
    decreases s.len(),
{
    let t = s.push(x);
    if s.len() == 0 {
        assert(t.skip(1) =~= Seq::<A>::empty());
        assert(count_where(t.skip(1), p) == 0);
        assert(t[0] == x);
        assert(count_where(t, p) == (if p(t[0]) { 1nat } else { 0nat }) + count_where(t.skip(1), p));
    } else {
        assert(t.skip(1) =~= s.skip(1).push(x));
        assert(t[0] == s[0]);
        lemma_count_push(s.skip(1), x, p);
        assert(count_where(t, p) == (if p(t[0]) { 1nat } else { 0nat }) + count_where(t.skip(1), p));
        assert(count_where(s, p) == (if p(s[0]) { 1nat } else { 0nat }) + count_where(s.skip(1), p));
    }
}

// ------------------------------------------------------------ diff counts

/// A line of a diff that adds a line: it starts with `+` but is not the
/// `+++` header.
pub open spec fn adds_line(l: Seq<char>) -> bool {
    starts_with(l, "+"@) && !starts_with(l, "+++"@)
}

/// A line of a diff that removes a line: it starts with `-` but is not the
/// `---` header.
pub open spec fn removes_line(l: Seq<char>) -> bool {
    starts_with(l, "-"@) && !starts_with(l, "---"@)
}

proof fn lemma_scan_counts(ls: Seq<Seq<char>>)
    ensures
        scan_lines(ls).additions == count_where(ls, |l: Seq<char>| adds_line(l)),
        scan_lines(ls).deletions == count_where(ls, |l: Seq<char>| removes_line(l)),
    decreases ls.len(),
{
    reveal_strlit("+");
    reveal_strlit("-");
    reveal_strlit("@@");
    if ls.len() == 0 {
    } else {
        let d = ls.drop_last();
        lemma_scan_counts(d);
        assert(d.push(ls.last()) =~= ls);
        lemma_count_push(d, ls.last(), |l: Seq<char>| adds_line(l));
        lemma_count_push(d, ls.last(), |l: Seq<char>| removes_line(l));
    }
}

/// A file's additions and deletions count every added and every removed
/// line of its section, however many of them the shown changes keep.
pub proof fn lemma_diff_counts_every_change(section: Seq<char>)
    ensures
        parse_file_diff_spec(section) matches Some((path, changes, a, d)) ==> a == count_where(
            lines(section),
            |l: Seq<char>| adds_line(l),
        ) && d == count_where(lines(section), |l: Seq<char>| removes_line(l)),
{
    lemma_scan_counts(lines(section));
}

/// A line of a diff that shows a change: a hunk header, or a line that
/// starts with `+` or `-`.
pub open spec fn shows_change(l: Seq<char>) -> bool {
    starts_with(l, "@@"@) || starts_with(l, "+"@) || starts_with(l, "-"@)
}

/// The changes shown for a file keep to the budget of bytes; they are
/// change lines of the file, with at most one `...`, which is there exactly
/// when some change line was left out; and when none was, they are all the
/// change lines, in order.
pub proof fn lemma_diff_kept_lines(ls: Seq<Seq<char>>)
    ensures
        scan_lines(ls).used <= MAX_DIFF_CHARS_PER_FILE,
        count_where(scan_lines(ls).kept, |l: Seq<char>| l == "..."@) == if scan_lines(ls).truncated {
            1nat
        } else {
            0nat
        },
        forall|i: int|
            0 <= i < scan_lines(ls).kept.len() && scan_lines(ls).kept[i] != "..."@ ==> shows_change(
                #[trigger] scan_lines(ls).kept[i],
            ),
        !scan_lines(ls).truncated ==> scan_lines(ls).kept == ls.filter(|l: Seq<char>| shows_change(l)),
    decreases ls.len(),
{
    reveal_strlit("...");
    reveal_strlit("+");
    reveal_strlit("-");
    reveal_strlit("@@");
    reveal(Seq::filter);
    let pd = |l: Seq<char>| l == "..."@;
    let pc = |l: Seq<char>| shows_change(l);
    if ls.len() == 0 {
        assert(ls.filter(pc) =~= Seq::<Seq<char>>::empty());
    } else {
        let d = ls.drop_last();
        let l = ls.last();
        lemma_diff_kept_lines(d);
        let st = scan_lines(d);
        lemma_count_push(st.kept, l, pd);
        lemma_count_push(st.kept, "..."@, pd);
        if shows_change(l) {
            assert(l != "..."@) by {
                if l == "..."@ {
                    assert(l[0] == '.');
                    if starts_with(l, "@@"@) {
                        assert(l.subrange(0, 2)[0] == l[0]);
                    } else if starts_with(l, "+"@) {
                        assert(l.subrange(0, 1)[0] == l[0]);
                    } else {
                        assert(l.subrange(0, 1)[0] == l[0]);
                    }
                }
            }
        }
        let k2 = scan_lines(ls).kept;
        assert forall|i: int| 0 <= i < k2.len() && k2[i] != "..."@ implies shows_change(#[trigger] k2[i]) by {
            if i < st.kept.len() {
                assert(k2[i] == st.kept[i]);
            }
        }
    }
}

// ----------------------------------------------------------- indentation

/// The indentation that unindenting removes is that of the least indented
/// line that is not blank: no such line has less, one has exactly that
/// much, and there is none to remove when every line is blank.
pub proof fn lemma_min_indent_is_least(ls: Seq<Seq<char>>)
    ensures
        min_indent(ls) is None <==> forall|i: int| 0 <= i < ls.len() ==> trim(#[trigger] ls[i]).len() == 0,
        min_indent(ls) matches Some(m) ==> (forall|i: int|
            0 <= i < ls.len() && trim(#[trigger] ls[i]).len() > 0 ==> m <= indent_bytes(ls[i])) && (exists|i: int|
            0 <= i < ls.len() && trim(#[trigger] ls[i]).len() > 0 && indent_bytes(ls[i]) == m),
    decreases ls.len(),
{
    if ls.len() > 0 {
        let d = ls.drop_last();
        lemma_min_indent_is_least(d);
        let n = ls.len() - 1;
        assert(forall|i: int| 0 <= i < n ==> ls[i] == d[i]);
        if let Some(m) = min_indent(ls) {
            if trim(ls[n]).len() > 0 && (min_indent(d) is None || indent_bytes(ls[n]) < min_indent(d).unwrap()) {
                assert(indent_bytes(ls[n]) == m);
            } else {
                let i = choose|i: int| 0 <= i < d.len() && trim(#[trigger] d[i]).len() > 0 && indent_bytes(d[i]) == m;
                assert(ls[i] == d[i]);
            }
        }
        if forall|i: int| 0 <= i < ls.len() ==> trim(#[trigger] ls[i]).len() == 0 {
            assert(trim(ls[n]).len() == 0);
        }
    }
}

// ---------------------------------------------------------- tweet videos

/// A video variant that can be linked: an MP4 with a URL that is not HEVC.
pub open spec fn usable_mp4(v: Json) -> bool {
    jget_str_or_empty(Some(v), "content_type"@) == "video/mp4"@ && jget_str_or_empty(Some(v), "url"@).len() > 0
        && !contains(jget_str_or_empty(Some(v), "url"@), "/hevc/"@)
}

/// A variant's bitrate, 0 when it gives none.
pub open spec fn bitrate_of(v: Json) -> int {
    match jint(jget(Some(v), "bitrate"@)) {
        Some(b) => b as int,
        None => 0,
    }
}

/// The variant chosen for a tweet's video is a usable MP4 with the highest
/// bitrate (the first of them when several share it); one is chosen
/// exactly when some usable MP4 has a bitrate that is not negative.
pub proof fn lemma_best_variant_is_highest(vs: Seq<Json>)
    ensures
        best_variant(vs).1 is Some <==> exists|i: int|
            0 <= i < vs.len() && usable_mp4(#[trigger] vs[i]) && bitrate_of(vs[i]) >= 0,
        best_variant(vs).1 matches Some(u) ==> exists|i: int|
            0 <= i < vs.len() && usable_mp4(#[trigger] vs[i]) && jget_str_or_empty(Some(vs[i]), "url"@) == u
                && (forall|j: int| 0 <= j < vs.len() && usable_mp4(#[trigger] vs[j]) ==> bitrate_of(vs[j]) <= bitrate_of(vs[i]))
                && (forall|j: int| 0 <= j < i && usable_mp4(#[trigger] vs[j]) ==> bitrate_of(vs[j]) < bitrate_of(vs[i])),
{
    lemma_best_variant_inv(vs);
}

/// The video a tweet links is, without its `?tag=` part, the URL of a
/// usable MP4 variant with the highest bitrate; there is one exactly when
/// the variants include a usable MP4 whose bitrate is not negative.
pub proof fn lemma_tweet_video_is_highest(detail: Option<Json>)
    ensures
        ({
            let vs = jarr(jget(jget(detail, "video_info"@), "variants"@));
            &&& best_video_spec(detail) is Some <==> (vs matches Some(v) && exists|i: int|
                0 <= i < v.len() && usable_mp4(#[trigger] v[i]) && bitrate_of(v[i]) >= 0)
            &&& best_video_spec(detail) matches Some(x) ==> (vs matches Some(v) && exists|i: int|
                0 <= i < v.len() && usable_mp4(#[trigger] v[i]) && x == strip_tag(
                    jget_str_or_empty(Some(v[i]), "url"@),
                ) && forall|j: int|
                    0 <= j < v.len() && usable_mp4(#[trigger] v[j]) ==> bitrate_of(v[j]) <= bitrate_of(v[i]))
        }),
{
    if let Some(v) = jarr(jget(jget(detail, "video_info"@), "variants"@)) {
        lemma_best_variant_is_highest(v);
    }
}

proof fn lemma_best_variant_inv(vs: Seq<Json>)
    ensures
        best_variant(vs).0 >= -1,
        best_variant(vs).1 is None ==> best_variant(vs).0 == -1,
        forall|j: int| 0 <= j < vs.len() && usable_mp4(#[trigger] vs[j]) ==> bitrate_of(vs[j]) <= best_variant(vs).0,
        best_variant(vs).1 is Some <==> exists|i: int|
            0 <= i < vs.len() && usable_mp4(#[trigger] vs[i]) && bitrate_of(vs[i]) >= 0,
        best_variant(vs).1 matches Some(u) ==> exists|i: int|
            0 <= i < vs.len() && usable_mp4(#[trigger] vs[i]) && jget_str_or_empty(Some(vs[i]), "url"@) == u
                && bitrate_of(vs[i]) == best_variant(vs).0
                && (forall|j: int| 0 <= j < i && usable_mp4(#[trigger] vs[j]) ==> bitrate_of(vs[j]) < bitrate_of(vs[i])),
    decreases vs.len(),
{
    if vs.len() > 0 {
        let d = vs.drop_last();
        lemma_best_variant_inv(d);
        let n = vs.len() - 1;
        assert(forall|i: int| 0 <= i < n ==> vs[i] == d[i]);
        assert(vs[n] == vs.last());
        let v = vs.last();
        if usable_mp4(v) && bitrate_of(v) > best_variant(d).0 {
            assert(usable_mp4(vs[n]));
        } else {
            if let Some(u) = best_variant(d).1 {
                let i = choose|i: int|
                    0 <= i < d.len() && usable_mp4(#[trigger] d[i]) && jget_str_or_empty(Some(d[i]), "url"@) == u
                        && bitrate_of(d[i]) == best_variant(d).0
                        && (forall|j: int| 0 <= j < i && usable_mp4(#[trigger] d[j]) ==> bitrate_of(d[j]) < bitrate_of(d[i]));
                assert(vs[i] == d[i]);
                assert(forall|j: int| 0 <= j < i && usable_mp4(#[trigger] vs[j]) ==> bitrate_of(vs[j]) < bitrate_of(vs[i])) by {
                    assert forall|j: int| 0 <= j < i && usable_mp4(#[trigger] vs[j]) implies bitrate_of(vs[j]) < bitrate_of(vs[i]) by {
                        assert(vs[j] == d[j]);
                    }
                }
            }
            if exists|i: int| 0 <= i < vs.len() && usable_mp4(#[trigger] vs[i]) && bitrate_of(vs[i]) >= 0 {
                let i = choose|i: int| 0 <= i < vs.len() && usable_mp4(#[trigger] vs[i]) && bitrate_of(vs[i]) >= 0;
                if i < n {
                    assert(usable_mp4(d[i]));
                }
            }
        }
    }
}

// --------------------------------------------------------- Bluesky images

/// The images of a Bluesky images embed are shown as the full-size URLs of
/// every image that has one, in order, none of them a video.
pub proof fn lemma_fullsize_images_all(imgs: Seq<Json>)
    ensures
        fullsize_images(imgs) == imgs.filter(|j: Json| jget_str(Some(j), "fullsize"@) is Some).map_values(
            |j: Json| (jget_str(Some(j), "fullsize"@).unwrap(), false),
        ),
    decreases imgs.len(),
{
    let p = |j: Json| jget_str(Some(j), "fullsize"@) is Some;
    let f = |j: Json| (jget_str(Some(j), "fullsize"@).unwrap(), false);
    reveal(Seq::filter);
    if imgs.len() == 0 {
        assert(imgs.filter(p) =~= Seq::<Json>::empty());
        assert(imgs.filter(p).map_values(f) =~= Seq::<(Seq<char>, bool)>::empty());
    } else {
        lemma_fullsize_images_all(imgs.drop_last());
        let fd = imgs.drop_last().filter(p);
        if p(imgs.last()) {
            assert(imgs.filter(p) == fd.push(imgs.last()));
            assert(fd.push(imgs.last()).map_values(f) =~= fd.map_values(f).push(f(imgs.last())));
        } else {
            assert(imgs.filter(p) == fd);
        }
    }
}

/// A post whose embed is an images embed (not wrapped with a record) shows
/// exactly the full-size URLs of its images that have one, in order, none
/// of them a video, and no link card.
pub proof fn lemma_bsky_images_embed(embed: Json, did: Seq<char>, pds: Option<Seq<char>>)
    ensures
        jget_str(Some(embed), "$type"@) == Some("app.bsky.embed.images#view"@) ==> parse_embed_spec(
            Some(embed),
            did,
            pds,
        ) == (
            match jarr(jget(Some(embed), "images"@)) {
                Some(imgs) => imgs.filter(|j: Json| jget_str(Some(j), "fullsize"@) is Some).map_values(
                    |j: Json| (jget_str(Some(j), "fullsize"@).unwrap(), false),
                ),
                None => Seq::<(Seq<char>, bool)>::empty(),
            },
            None::<(Seq<char>, Seq<char>)>,
        ),
{
    reveal_strlit("app.bsky.embed.images#view");
    reveal_strlit("app.bsky.embed.recordWithMedia#view");
    if jget_str(Some(embed), "$type"@) == Some("app.bsky.embed.images#view"@) {
        assert("app.bsky.embed.images#view"@[15] != "app.bsky.embed.recordWithMedia#view"@[15]);
        assert(jget_str_or_empty(Some(embed), "$type"@) == "app.bsky.embed.images#view"@);
        assert(crate::bsky::media_view_of(Some(embed)) == Some(embed));
    }
    if let Some(imgs) = jarr(jget(Some(embed), "images"@)) {
        lemma_fullsize_images_all(imgs);
    }
}

// ---------------------------------------------------------- Reddit videos

/// A Reddit post that is not a gallery and is a video with a fallback
/// stream shows exactly that stream: the one under `secure_media`, else the
/// one under `media`.
pub proof fn lemma_reddit_video_media(p: Option<Json>, limit: nat)
    ensures
        ({
            &&& !(jbool(jget(p, "is_gallery"@)) == Some(true) && jarr(jget(jget(p, "gallery_data"@), "items"@)) is Some)
            &&& jbool(jget(p, "is_video"@)) == Some(true)
            &&& jget_str(jget(jget(p, "secure_media"@), "reddit_video"@), "fallback_url"@) is Some
        }) ==> extract_media_spec(p, limit) == seq![
            jget_str(jget(jget(p, "secure_media"@), "reddit_video"@), "fallback_url"@).unwrap(),
        ],
        ({
            &&& !(jbool(jget(p, "is_gallery"@)) == Some(true) && jarr(jget(jget(p, "gallery_data"@), "items"@)) is Some)
            &&& jbool(jget(p, "is_video"@)) == Some(true)
            &&& jget_str(jget(jget(p, "secure_media"@), "reddit_video"@), "fallback_url"@) is None
            &&& jget_str(jget(jget(p, "media"@), "reddit_video"@), "fallback_url"@) is Some
        }) ==> extract_media_spec(p, limit) == seq![
            jget_str(jget(jget(p, "media"@), "reddit_video"@), "fallback_url"@).unwrap(),
        ],
{
}

proof fn lemma_gallery_urls_all(md: Option<Json>, items: Seq<Json>)
    ensures
        gallery_urls(md, items) == items.filter(|it: Json| gallery_item_url(md, it) is Some).map_values(
            |it: Json| gallery_item_url(md, it).unwrap(),
        ),
    decreases items.len(),
{
    let p = |it: Json| gallery_item_url(md, it) is Some;
    let f = |it: Json| gallery_item_url(md, it).unwrap();
    reveal(Seq::filter);
    if items.len() == 0 {
        assert(items.filter(p) =~= Seq::<Json>::empty());
        assert(items.filter(p).map_values(f) =~= Seq::<Seq<char>>::empty());
    } else {
        lemma_gallery_urls_all(md, items.drop_last());
        let fd = items.drop_last().filter(p);
        if p(items.last()) {
            assert(fd.push(items.last()).map_values(f) =~= fd.map_values(f).push(f(items.last())));
        }
    }
}

/// A gallery post shows the URLs of its first `limit` gallery items, in
/// order, leaving out the items whose URL its metadata does not give.
pub proof fn lemma_reddit_gallery_media(p: Option<Json>, limit: nat)
    ensures
        jbool(jget(p, "is_gallery"@)) == Some(true) ==> (jarr(jget(jget(p, "gallery_data"@), "items"@)) matches Some(
            items,
        ) ==> extract_media_spec(p, limit) == items.take(
            if limit < items.len() {
                limit as int
            } else {
                items.len() as int
            },
        ).filter(|it: Json| gallery_item_url(jget(p, "media_metadata"@), it) is Some).map_values(
            |it: Json| gallery_item_url(jget(p, "media_metadata"@), it).unwrap(),
        )),
{
    if let Some(items) = jarr(jget(jget(p, "gallery_data"@), "items"@)) {
        let n = if limit < items.len() {
            limit as int
        } else {
            items.len() as int
        };
        lemma_gallery_urls_all(jget(p, "media_metadata"@), items.take(n));
    }
}

/// A post that is neither a gallery nor a video with a fallback stream,
/// and whose hint is `image` with a URL, shows exactly that URL.
pub proof fn lemma_reddit_image_media(p: Option<Json>, limit: nat)
    ensures
        ({
            &&& !(jbool(jget(p, "is_gallery"@)) == Some(true) && jarr(jget(jget(p, "gallery_data"@), "items"@)) is Some)
            &&& !(jbool(jget(p, "is_video"@)) == Some(true) && (jget_str(
                jget(jget(p, "secure_media"@), "reddit_video"@),
                "fallback_url"@,
            ) is Some || jget_str(jget(jget(p, "media"@), "reddit_video"@), "fallback_url"@) is Some))
            &&& jget_str(p, "post_hint"@) == Some("image"@)
            &&& jget_str(p, "url"@) is Some
        }) ==> extract_media_spec(p, limit) == seq![jget_str(p, "url"@).unwrap()],
{
}

} // verus!
