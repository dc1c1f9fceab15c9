//! Links to a file (or some of its lines) on GitHub, GitLab, Gitea or a
//! rustdoc source page, and the code snippet they are answered with.
use vstd::prelude::*;
use crate::text::{
    byte_len, byte_len_exec, char_width, cw, lemma_byte_len_concat, lemma_byte_len_first, lemma_byte_len_take,
    replace, skip_while, trim, ws_pred, after_last, after_last_exec, append, append_str, before_first, before_first_exec, find, find_exec,
    from_chars, join, join_exec, lines, lines_exec, to_chars, vv,
};
use crate::num::{decimal, decimal_exec, parse_u64, parse_u64_spec};
use crate::pattern::{captures, group, group_exec, groups_view, regex_captures};
use crate::git_diff::opt_view;

verus! {

/// Where a file link points.
#[derive(PartialEq, Eq, Structural, Clone, Copy, Debug)]
pub enum GitPlatform {
    GitHub,
    GitLab,
    Gitea,
    RustDoc,
}

/// A link to a file: the raw file's URL, the file's name and the lines
/// it points at.
pub struct GitFileLink {
    pub platform: GitPlatform,
    pub original_url: String,
    pub raw_url: String,
    pub file_name: String,
    pub start_line: Option<u32>,
    pub end_line: Option<u32>,
}

pub struct GitFileLinkView {
    pub platform: GitPlatform,
    pub original_url: Seq<char>,
    pub raw_url: Seq<char>,
    pub file_name: Seq<char>,
    pub start_line: Option<u32>,
    pub end_line: Option<u32>,
}

impl GitFileLink {
    pub open spec fn view(&self) -> GitFileLinkView {
        GitFileLinkView {
            platform: self.platform,
            original_url: self.original_url@,
            raw_url: self.raw_url@,
            file_name: self.file_name@,
            start_line: self.start_line,
            end_line: self.end_line,
        }
    }
}

pub const GITHUB_FILE_PATTERN: &'static str = r"https?://(?:www\.)?github\.com/([^/]+)/([^/]+)/blob/([^/]+)/([^#?]+)(?:\?[^#]*)?(?:#L(\d+)(?:-L?(\d+))?)?";
pub const GITLAB_FILE_PATTERN: &'static str = r"https?://(.+?)/([^/]+)/([^/]+)/-/blob/([^/]+)/([^#?]+)(?:\?[^#]*)?(?:#L(\d+)(?:-L?(\d+))?)?";
pub const RUSTDOC_FILE_PATTERN: &'static str = r"https?://([^/]+)/([^/]+)/([^/]+)/src/([^/]+)/([^#]+\.rs)\.html(?:#(\d+)(?:-(\d+))?)?";
pub const GITEA_FILE_PATTERN: &'static str = r"https?://(.+?)/([^/]+)/([^/]+)/src/(?:branch|commit)/([^/]+)/([^#?]+)(?:\?[^#]*)?(?:#L(\d+)(?:-L?(\d+))?)?";

/// `s.parse::<u32>()`.
pub open spec fn parse_u32_spec(s: Seq<char>) -> Option<u32> {
    match parse_u64_spec(s) {
        Some(v) => if v <= u32::MAX {
            Some(v as u32)
        } else {
            None
        },
        None => None,
    }
}

/// A line number group of a match, when it is a `u32`.
pub open spec fn line_group(caps: Seq<Option<Seq<char>>>, i: int) -> Option<u32> {
    match group(caps, i) {
        Some(g) => parse_u32_spec(g),
        None => None,
    }
}

/// The last `/`-separated part of a path.
pub open spec fn base_name(path: Seq<char>) -> Seq<char> {
    after_last(path, "/"@)
}

/// A link read from the captures of one of the four patterns: `groups`
/// is where the host (0 when the pattern has none), owner, repository,
/// commit, path and the two line numbers are; `raw` the raw file's URL.
pub open spec fn file_link_from(
    platform: GitPlatform,
    url: Seq<char>,
    caps: Option<Seq<Option<Seq<char>>>>,
    first_line_group: int,
    raw: spec_fn(Seq<Seq<char>>) -> Seq<char>,
    n: int,
) -> Option<GitFileLinkView> {
    match caps {
        None => None,
        Some(c) => if (forall|i: int| 1 <= i <= n ==> #[trigger] group(c, i) is Some) {
            let parts = Seq::new(n as nat, |i: int| group(c, i + 1).unwrap());
            Some(
                GitFileLinkView {
                    platform,
                    original_url: url,
                    raw_url: raw(parts),
                    file_name: base_name(parts[n - 1]),
                    start_line: line_group(c, first_line_group),
                    end_line: line_group(c, first_line_group + 1),
                },
            )
        } else {
            None
        },
    }
}

pub open spec fn github_raw() -> spec_fn(Seq<Seq<char>>) -> Seq<char> {
    |p: Seq<Seq<char>>| "https://raw.githubusercontent.com/"@ + p[0] + "/"@ + p[1] + "/"@ + p[2] + "/"@ + p[3]
}

pub open spec fn gitlab_raw() -> spec_fn(Seq<Seq<char>>) -> Seq<char> {
    |p: Seq<Seq<char>>| "https://"@ + p[0] + "/"@ + p[1] + "/"@ + p[2] + "/-/raw/"@ + p[3] + "/"@ + p[4]
}

pub open spec fn rustdoc_raw() -> spec_fn(Seq<Seq<char>>) -> Seq<char> {
    |p: Seq<Seq<char>>| "https://"@ + p[0] + "/"@ + p[1] + "/"@ + p[2] + "/src/"@ + p[3] + "/"@ + p[4]
}

pub open spec fn gitea_raw() -> spec_fn(Seq<Seq<char>>) -> Seq<char> {
    |p: Seq<Seq<char>>| "https://"@ + p[0] + "/"@ + p[1] + "/"@ + p[2] + "/raw/"@ + p[3] + "/"@ + p[4]
}

/// What `GitFileLink::parse` reads from a URL: the first of the rustdoc,
/// GitHub, GitLab and Gitea forms that matches.
pub open spec fn file_link_spec(url: Seq<char>) -> Option<GitFileLinkView> {
    match file_link_from(GitPlatform::RustDoc, url, regex_captures(RUSTDOC_FILE_PATTERN@, url), 6, rustdoc_raw(), 5) {
        Some(l) => Some(l),
        None => match file_link_from(GitPlatform::GitHub, url, regex_captures(GITHUB_FILE_PATTERN@, url), 5, github_raw(), 4) {
            Some(l) => Some(l),
            None => match file_link_from(GitPlatform::GitLab, url, regex_captures(GITLAB_FILE_PATTERN@, url), 6, gitlab_raw(), 5) {
                Some(l) => Some(l),
                None => file_link_from(GitPlatform::Gitea, url, regex_captures(GITEA_FILE_PATTERN@, url), 6, gitea_raw(), 5),
            },
        },
    }
}

fn line_group_exec(caps: &Vec<Option<String>>, i: usize) -> (r: Option<u32>)
    ensures
        r == line_group(groups_view(caps@), i as int),
{
    match group_exec(caps, i) {
        Some(g) => match parse_u64(g.as_slice()) {
            Some(v) => if v <= u32::MAX as u64 {
                Some(v as u32)
            } else {
                None
            },
            None => None,
        },
        None => None,
    }
}

/// The first `n` groups after group 0, when all of them took part.
fn groups_exec(caps: &Vec<Option<String>>, n: usize) -> (r: Option<Vec<Vec<char>>>)
    ensures
        match r {
            Some(parts) => (forall|i: int| 1 <= i <= n ==> #[trigger] group(groups_view(caps@), i) is Some)
                && parts@.len() == n && vv(parts@) == Seq::new(n as nat, |i: int| group(groups_view(caps@), i + 1).unwrap()),
            None => !(forall|i: int| 1 <= i <= n ==> #[trigger] group(groups_view(caps@), i) is Some),
        },
{
    let ghost c = groups_view(caps@);
    let mut parts: Vec<Vec<char>> = Vec::new();
    let mut i: usize = 0;
    while i < n
        invariant
            i <= n,
            c == groups_view(caps@),
            forall|j: int| 1 <= j <= i ==> #[trigger] group(c, j) is Some,
            parts@.len() == i,
            vv(parts@) == Seq::new(i as nat, |j: int| group(c, j + 1).unwrap()),
        decreases n - i,
    {
        if i + 1 > caps.len() {
            assert(group(c, i + 1) is None);
            return None;
        }
        match group_exec(caps, i + 1) {
            Some(g) => {
                let ghost before = parts@;
                parts.push(g);
                proof {
                    crate::text::lemma_vv_push(before, g);
                }
                assert(vv(parts@) =~= Seq::new((i + 1) as nat, |j: int| group(c, j + 1).unwrap()));
            },
            None => {
                return None;
            },
        }
        i += 1;
    }
    Some(parts)
}

fn raw_from(platform: GitPlatform, p: &Vec<Vec<char>>) -> (r: Vec<char>)
    requires
        platform == GitPlatform::GitHub ==> p@.len() == 4,
        platform != GitPlatform::GitHub ==> p@.len() == 5,
    ensures
        r@ == match platform {
            GitPlatform::GitHub => (github_raw())(vv(p@)),
            GitPlatform::GitLab => (gitlab_raw())(vv(p@)),
            GitPlatform::Gitea => (gitea_raw())(vv(p@)),
            GitPlatform::RustDoc => (rustdoc_raw())(vv(p@)),
        },
{
    let mut out: Vec<char> = Vec::new();
    match platform {
        GitPlatform::GitHub => {
            append_str(&mut out, "https://raw.githubusercontent.com/");
            append(&mut out, p[0].as_slice());
            append_str(&mut out, "/");
            append(&mut out, p[1].as_slice());
            append_str(&mut out, "/");
            append(&mut out, p[2].as_slice());
            append_str(&mut out, "/");
            append(&mut out, p[3].as_slice());
        },
        _ => {
            append_str(&mut out, "https://");
            append(&mut out, p[0].as_slice());
            append_str(&mut out, "/");
            append(&mut out, p[1].as_slice());
            append_str(&mut out, "/");
            append(&mut out, p[2].as_slice());
            match platform {
                GitPlatform::GitLab => append_str(&mut out, "/-/raw/"),
                GitPlatform::Gitea => append_str(&mut out, "/raw/"),
                _ => append_str(&mut out, "/src/"),
            }
            append(&mut out, p[3].as_slice());
            append_str(&mut out, "/");
            append(&mut out, p[4].as_slice());
        },
    }
    out
}

fn link_from(platform: GitPlatform, url: &str, pattern: &str, first_line_group: usize, n: usize) -> (r: Option<
    GitFileLink,
>)
    requires
        platform == GitPlatform::GitHub ==> n == 4 && first_line_group == 5,
        platform != GitPlatform::GitHub ==> n == 5 && first_line_group == 6,
    ensures
        match r {
            Some(l) => file_link_from(
                platform,
                url@,
                regex_captures(pattern@, url@),
                first_line_group as int,
                match platform {
                    GitPlatform::GitHub => github_raw(),
                    GitPlatform::GitLab => gitlab_raw(),
                    GitPlatform::Gitea => gitea_raw(),
                    GitPlatform::RustDoc => rustdoc_raw(),
                },
                n as int,
            ) == Some(l.view()),
            None => file_link_from(
                platform,
                url@,
                regex_captures(pattern@, url@),
                first_line_group as int,
                match platform {
                    GitPlatform::GitHub => github_raw(),
                    GitPlatform::GitLab => gitlab_raw(),
                    GitPlatform::Gitea => gitea_raw(),
                    GitPlatform::RustDoc => rustdoc_raw(),
                },
                n as int,
            ) is None,
        },
{
    let caps = match captures(pattern, url) {
        Some(c) => c,
        None => return None,
    };
    let parts = match groups_exec(&caps, n) {
        Some(p) => p,
        None => return None,
    };
    let raw = raw_from(platform, &parts);
    let slash = to_chars("/");
    let name = after_last_exec(parts[n - 1].as_slice(), slash.as_slice());
    Some(GitFileLink {
        platform,
        original_url: from_chars(to_chars(url).as_slice()),
        raw_url: from_chars(raw.as_slice()),
        file_name: from_chars(name),
        start_line: line_group_exec(&caps, first_line_group),
        end_line: line_group_exec(&caps, first_line_group + 1),
    })
}

impl GitFileLink {
    /// Recognizes a file link (see `file_link_spec`).
    pub fn parse(url: &str) -> (r: Option<GitFileLink>)
        ensures
            match r {
                Some(l) => file_link_spec(url@) == Some(l.view()),
                None => file_link_spec(url@) is None,
            },
    {
        if let Some(l) = link_from(GitPlatform::RustDoc, url, RUSTDOC_FILE_PATTERN, 6, 5) {
            return Some(l);
        }
        if let Some(l) = link_from(GitPlatform::GitHub, url, GITHUB_FILE_PATTERN, 5, 4) {
            return Some(l);
        }
        if let Some(l) = link_from(GitPlatform::GitLab, url, GITLAB_FILE_PATTERN, 6, 5) {
            return Some(l);
        }
        link_from(GitPlatform::Gitea, url, GITEA_FILE_PATTERN, 6, 5)
    }
}

/// The extensions shown with another language's highlighting.
pub open spec fn json_like(ext: Seq<char>) -> bool {
    ext == "jsonc"@ || ext == "json5"@ || ext == "jsonld"@ || ext == "sublime-build"@ || ext
        == "sublime-settings"@ || ext == "sublime-menu"@ || ext == "sublime-commands"@ || ext == "sublime-project"@
        || ext == "sublime-mousemap"@ || ext == "sublime-keymap"@ || ext == "sublime-macro"@ || ext
        == "sublime-completions"@ || ext == "code-workspace"@ || ext == "code-snippets"@
}

/// The code block language of a file: its extension, with component
/// formats shown as `jsx`, MDX as `md` and JSON dialects as `json`.
pub open spec fn language_spec(file_name: Seq<char>) -> Seq<char> {
    let ext = after_last(file_name, "."@);
    if ext == "astro"@ || ext == "svelte"@ || ext == "vue"@ {
        "jsx"@
    } else if ext == "mdx"@ {
        "md"@
    } else if json_like(ext) {
        "json"@
    } else {
        ext
    }
}

fn is_one_of(s: &[char], options: &Vec<&'static str>) -> (r: bool)
    ensures
        r == exists|i: int| 0 <= i < options@.len() && s@ == #[trigger] options@[i]@,
{
    let mut i: usize = 0;
    while i < options.len()
        invariant
            i <= options@.len(),
            forall|j: int| 0 <= j < i ==> s@ != #[trigger] options@[j]@,
        decreases options@.len() - i,
    {
        if crate::text::eq_str(s, options[i]) {
            return true;
        }
        i += 1;
    }
    false
}

impl GitFileLink {
    /// The file's extension: what follows its last `.`, or the whole name.
    pub fn get_extension(&self) -> (r: Vec<char>)
        ensures
            r@ == after_last(self.file_name@, "."@),
    {
        let n = to_chars(self.file_name.as_str());
        let dot = to_chars(".");
        vstd::slice::slice_to_vec(after_last_exec(n.as_slice(), dot.as_slice()))
    }

    /// The code block language of the file (see `language_spec`).
    pub fn get_language(&self) -> (r: String)
        ensures
            r@ == language_spec(self.file_name@),
    {
        let ext = self.get_extension();
        let jsx = vec!["astro", "svelte", "vue"];
        let json = vec![
            "jsonc",
            "json5",
            "jsonld",
            "sublime-build",
            "sublime-settings",
            "sublime-menu",
            "sublime-commands",
            "sublime-project",
            "sublime-mousemap",
            "sublime-keymap",
            "sublime-macro",
            "sublime-completions",
            "code-workspace",
            "code-snippets",
        ];
        if is_one_of(ext.as_slice(), &jsx) {
            assert(ext@ == jsx@[0]@ || ext@ == jsx@[1]@ || ext@ == jsx@[2]@);
            return "jsx".to_string();
        }
        if crate::text::eq_str(ext.as_slice(), "mdx") {
            return "md".to_string();
        }
        if is_one_of(ext.as_slice(), &json) {
            let ghost k = choose|i: int| 0 <= i < json@.len() && ext@ == #[trigger] json@[i]@;
            assert(json_like(ext@)) by {
                assert(0 <= k < 14);
                if k == 0 {} else if k == 1 {} else if k == 2 {} else if k == 3 {} else if k == 4 {}
                else if k == 5 {} else if k == 6 {} else if k == 7 {} else if k == 8 {} else if k == 9 {}
                else if k == 10 {} else if k == 11 {} else if k == 12 {} else {}
            }
            return "json".to_string();
        }
        assert(!json_like(ext@)) by {
            if json_like(ext@) {
                if ext@ == "jsonc"@ { assert(ext@ == json@[0]@); }
                else if ext@ == "json5"@ { assert(ext@ == json@[1]@); }
                else if ext@ == "jsonld"@ { assert(ext@ == json@[2]@); }
                else if ext@ == "sublime-build"@ { assert(ext@ == json@[3]@); }
                else if ext@ == "sublime-settings"@ { assert(ext@ == json@[4]@); }
                else if ext@ == "sublime-menu"@ { assert(ext@ == json@[5]@); }
                else if ext@ == "sublime-commands"@ { assert(ext@ == json@[6]@); }
                else if ext@ == "sublime-project"@ { assert(ext@ == json@[7]@); }
                else if ext@ == "sublime-mousemap"@ { assert(ext@ == json@[8]@); }
                else if ext@ == "sublime-keymap"@ { assert(ext@ == json@[9]@); }
                else if ext@ == "sublime-macro"@ { assert(ext@ == json@[10]@); }
                else if ext@ == "sublime-completions"@ { assert(ext@ == json@[11]@); }
                else if ext@ == "code-workspace"@ { assert(ext@ == json@[12]@); }
                else { assert(ext@ == json@[13]@); }
            }
        }
        assert(!(ext@ == "astro"@ || ext@ == "svelte"@ || ext@ == "vue"@)) by {
            if ext@ == "astro"@ { assert(ext@ == jsx@[0]@); }
            else if ext@ == "svelte"@ { assert(ext@ == jsx@[1]@); }
            else if ext@ == "vue"@ { assert(ext@ == jsx@[2]@); }
        }
        from_chars(ext.as_slice())
    }
}

/// The text an HTML entity name stands for; an unknown one is kept as
/// `&name;`.
pub open spec fn entity_text(name: Seq<char>) -> Seq<char> {
    if name == "lt"@ {
        "<"@
    } else if name == "gt"@ {
        ">"@
    } else if name == "amp"@ {
        "&"@
    } else if name == "quot"@ {
        "\""@
    } else if name == "apos"@ || name == "#39"@ {
        "'"@
    } else {
        "&"@ + name + ";"@
    }
}

/// One line of HTML without its tags and with entities decoded; an entity
/// runs to the next `;` (or the end of the line).
pub open spec fn strip_line(s: Seq<char>, in_tag: bool) -> Seq<char>
    decreases s.len(),
{
    if s.len() == 0 {
        seq![]
    } else {
        let c = s[0];
        if c == '<' {
            strip_line(s.skip(1), true)
        } else if c == '>' {
            strip_line(s.skip(1), false)
        } else if in_tag {
            strip_line(s.skip(1), true)
        } else if c == '&' {
            let rest = s.skip(1);
            match find(rest, ";"@) {
                Some(i) => if 0 <= i < rest.len() {
                    entity_text(rest.take(i)) + strip_line(rest.skip(i + 1), false)
                } else {
                    seq![]
                },
                None => entity_text(rest),
            }
        } else {
            seq![c] + strip_line(s.skip(1), false)
        }
    }
}

/// A rustdoc source page as plain text, line by line.
pub open spec fn strip_html_spec(html: Seq<char>) -> Seq<char> {
    join(lines(html).map_values(|l: Seq<char>| strip_line(l, false)), "\n"@)
}

fn entity_text_exec(name: &[char]) -> (r: Vec<char>)
    ensures
        r@ == entity_text(name@),
{
    if crate::text::eq_str(name, "lt") {
        to_chars("<")
    } else if crate::text::eq_str(name, "gt") {
        to_chars(">")
    } else if crate::text::eq_str(name, "amp") {
        to_chars("&")
    } else if crate::text::eq_str(name, "quot") {
        to_chars("\"")
    } else if crate::text::eq_str(name, "apos") || crate::text::eq_str(name, "#39") {
        to_chars("'")
    } else {
        let mut out = to_chars("&");
        append(&mut out, name);
        append_str(&mut out, ";");
        out
    }
}

fn strip_line_exec(s: &[char]) -> (r: Vec<char>)
    ensures
        r@ == strip_line(s@, false),
{
    let mut out: Vec<char> = Vec::new();
    let mut in_tag = false;
    let mut cur: &[char] = s;
    let semi = to_chars(";");
    loop
        invariant
            semi@ == ";"@,
            out@ + strip_line(cur@, in_tag) == strip_line(s@, false),
        decreases cur@.len(),
    {
        if cur.len() == 0 {
            assert(out@ + strip_line(cur@, in_tag) =~= out@);
            return out;
        }
        let c = cur[0];
        let rest = vstd::slice::slice_subrange(cur, 1, cur.len());
        assert(rest@ =~= cur@.skip(1));
        if c == '<' {
            in_tag = true;
            cur = rest;
        } else if c == '>' {
            in_tag = false;
            cur = rest;
        } else if in_tag {
            cur = rest;
        } else if c == '&' {
            proof {
                crate::text::lemma_find(rest@, semi@);
                reveal_strlit(";");
            }
            match find_exec(rest, semi.as_slice()) {
                Some(i) => {
                    let name = vstd::slice::slice_subrange(rest, 0, i);
                    assert(name@ =~= rest@.take(i as int));
                    let t = entity_text_exec(name);
                    let ghost before = out@;
                    append(&mut out, t.as_slice());
                    let after = vstd::slice::slice_subrange(rest, i + 1, rest.len());
                    assert(after@ =~= rest@.skip(i + 1));
                    assert(out@ + strip_line(after@, false) =~= before + strip_line(cur@, in_tag));
                    cur = after;
                    in_tag = false;
                },
                None => {
                    let t = entity_text_exec(rest);
                    let ghost before = out@;
                    append(&mut out, t.as_slice());
                    assert(out@ =~= before + strip_line(cur@, in_tag));
                    return out;
                },
            }
        } else {
            let ghost before = out@;
            out.push(c);
            assert(out@ + strip_line(rest@, false) =~= before + strip_line(cur@, in_tag));
            cur = rest;
        }
    }
}

/// A rustdoc source page as plain text (see `strip_html_spec`).
pub fn strip_html(html: &str) -> (r: String)
    ensures
        r@ == strip_html_spec(html@),
{
    let h = to_chars(html);
    let ls = lines_exec(h.as_slice());
    let mut stripped: Vec<Vec<char>> = Vec::new();
    let mut i: usize = 0;
    while i < ls.len()
        invariant
            i <= ls@.len(),
            vv(ls@) == lines(h@),
            vv(stripped@) == vv(ls@).take(i as int).map_values(|l: Seq<char>| strip_line(l, false)),
        decreases ls@.len() - i,
    {
        let t = strip_line_exec(ls[i].as_slice());
        let ghost before = stripped@;
        stripped.push(t);
        proof {
            crate::text::lemma_vv_push(before, t);
        }
        assert(vv(ls@).take(i + 1) =~= vv(ls@).take(i as int).push(ls@[i as int]@));
        assert(vv(stripped@) =~= vv(ls@).take(i + 1).map_values(|l: Seq<char>| strip_line(l, false)));
        i += 1;
    }
    assert(vv(ls@).take(ls@.len() as int) =~= vv(ls@));
    let nl = to_chars("\n");
    let out = join_exec(stripped.as_slice(), nl.as_slice());
    from_chars(out.as_slice())
}

/// The number of leading whitespace characters of a line.
pub open spec fn lead_ws(l: Seq<char>) -> nat {
    (l.len() - skip_while(l, ws_pred()).len()) as nat
}

/// The width in bytes of a line's leading whitespace.
pub open spec fn indent_bytes(l: Seq<char>) -> nat {
    byte_len(l.take(lead_ws(l) as int))
}

pub open spec fn blank(l: Seq<char>) -> bool {
    trim(l).len() == 0
}

/// The smallest indentation, in bytes, of the lines that are not blank.
pub open spec fn min_indent(ls: Seq<Seq<char>>) -> Option<nat>
    decreases ls.len(),
{
    if ls.len() == 0 {
        None
    } else {
        let r = min_indent(ls.drop_last());
        if blank(ls.last()) {
            r
        } else {
            match r {
                None => Some(indent_bytes(ls.last())),
                Some(m) => Some(if indent_bytes(ls.last()) < m { indent_bytes(ls.last()) } else { m }),
            }
        }
    }
}

/// How many leading characters of `l` make up its first `m` bytes (short
/// of a character that would cross the `m`-th byte).
pub open spec fn chars_for_bytes(l: Seq<char>, m: nat) -> nat
    decreases l.len(),
{
    if m == 0 || l.len() == 0 {
        0
    } else if cw(l[0]) > m {
        0
    } else {
        1 + chars_for_bytes(l.skip(1), (m - cw(l[0])) as nat)
    }
}

/// Byte `m` of `l` falls between characters.
pub open spec fn at_boundary(l: Seq<char>, m: nat) -> bool {
    byte_len(l.take(chars_for_bytes(l, m) as int)) == m
}

/// A line without its first `m` bytes, when it has that many.
pub open spec fn cut_line(l: Seq<char>, m: nat) -> Seq<char> {
    if byte_len(l) >= m {
        l.skip(chars_for_bytes(l, m) as int)
    } else {
        l
    }
}

pub open spec fn detab(text: Seq<char>) -> Seq<char> {
    replace(text, "\t"@, "    "@)
}

/// A text with tabs as four spaces and the indentation all its non-blank
/// lines share removed (in bytes, as `str` slicing counts).
pub open spec fn unindent_spec(text: Seq<char>) -> Seq<char> {
    let t = detab(text);
    let ls = lines(t);
    match min_indent(ls) {
        Some(m) => if m > 0 {
            join(ls.map_values(|l: Seq<char>| cut_line(l, m)), "\n"@)
        } else {
            t
        },
        None => t,
    }
}

/// Unindenting `text` slices every line at a character boundary, and the
/// text with its tabs expanded fits in memory.
pub open spec fn unindent_ok(text: Seq<char>) -> bool {
    let t = detab(text);
    let ls = lines(t);
    &&& byte_len(t) <= usize::MAX
    &&& match min_indent(ls) {
        Some(m) => m > 0 ==> forall|i: int|
            0 <= i < ls.len() && byte_len(ls[i]) >= m ==> #[trigger] at_boundary(ls[i], m),
        None => true,
    }
}

/// The characters that make up the first `m` bytes are at most all of them
/// and take at most `m` bytes.
pub proof fn lemma_chars_for_bytes(l: Seq<char>, m: nat)
    ensures
        chars_for_bytes(l, m) <= l.len(),
        byte_len(l.take(chars_for_bytes(l, m) as int)) <= m,
    decreases l.len(),
{
    if m == 0 || l.len() == 0 {
        assert(l.take(0) =~= Seq::<char>::empty());
    } else if cw(l[0]) > m {
        assert(l.take(0) =~= Seq::<char>::empty());
    } else {
        let k = chars_for_bytes(l.skip(1), (m - cw(l[0])) as nat);
        lemma_chars_for_bytes(l.skip(1), (m - cw(l[0])) as nat);
        assert(l.take(k as int + 1).skip(1) =~= l.skip(1).take(k as int));
        lemma_byte_len_first(l.take(k as int + 1));
    }
}

/// The indentation of one line, in bytes.
fn indent_of(l: &[char]) -> (r: usize)
    requires
        byte_len(l@) <= usize::MAX,
    ensures
        r == indent_bytes(l@),
{
    let mut a: usize = 0;
    assert(l@.skip(0) =~= l@);
    while a < l.len() && crate::text::is_ws_exec(l[a])
        invariant
            a <= l@.len(),
            skip_while(l@.skip(a as int), ws_pred()) == skip_while(l@, ws_pred()),
        decreases l@.len() - a,
    {
        assert(l@.skip(a as int).skip(1) =~= l@.skip(a + 1));
        a += 1;
    }
    assert(skip_while(l@.skip(a as int), ws_pred()) == l@.skip(a as int));
    let prefix = vstd::slice::slice_subrange(l, 0, a);
    assert(prefix@ =~= l@.take(a as int));
    proof {
        lemma_byte_len_take(l@, a as int);
    }
    byte_len_exec(prefix)
}

/// `l` without its first `m` bytes (see `cut_line`).
fn cut_line_exec(l: &[char], m: usize) -> (r: Vec<char>)
    requires
        byte_len(l@) <= usize::MAX,
        byte_len(l@) >= m ==> at_boundary(l@, m as nat),
    ensures
        r@ == cut_line(l@, m as nat),
{
    let total = byte_len_exec(l);
    if total < m {
        return vstd::slice::slice_to_vec(l);
    }
    let mut k: usize = 0;
    let mut acc: usize = 0;
    assert(l@.take(0) =~= Seq::<char>::empty());
    assert(l@.skip(0) =~= l@);
    while k < l.len() && acc < m && char_width(l[k]) <= m - acc
        invariant
            k <= l@.len(),
            acc <= m,
            acc == byte_len(l@.take(k as int)),
            chars_for_bytes(l@, m as nat) == k + chars_for_bytes(l@.skip(k as int), (m - acc) as nat),
        decreases l@.len() - k,
    {
        let w = char_width(l[k]);
        proof {
            assert(l@.skip(k as int)[0] == l@[k as int]);
            assert(l@.skip(k as int).skip(1) =~= l@.skip(k + 1));
            assert(l@.take(k + 1) =~= l@.take(k as int) + seq![l@[k as int]]);
            lemma_byte_len_concat(l@.take(k as int), seq![l@[k as int]]);
            lemma_byte_len_first(seq![l@[k as int]]);
            assert(seq![l@[k as int]].skip(1) =~= Seq::<char>::empty());
        }
        acc = acc + w;
        k += 1;
    }
    proof {
        if k < l@.len() {
            assert(l@.skip(k as int)[0] == l@[k as int]);
        }
        assert(chars_for_bytes(l@.skip(k as int), (m - acc) as nat) == 0);
    }
    let r = vstd::slice::slice_subrange(l, k, l.len());
    assert(r@ =~= l@.skip(k as int));
    vstd::slice::slice_to_vec(r)
}

/// How many leading characters of `l` make up its first `m` bytes (see
/// `chars_for_bytes`).
pub(crate) fn chars_for_bytes_exec(l: &[char], m: usize) -> (r: usize)
    ensures
        r == chars_for_bytes(l@, m as nat),
        r <= l@.len(),
{
    let mut k: usize = 0;
    let mut acc: usize = 0;
    assert(l@.skip(0) =~= l@);
    while k < l.len() && acc < m && char_width(l[k]) <= m - acc
        invariant
            k <= l@.len(),
            acc <= m,
            chars_for_bytes(l@, m as nat) == k + chars_for_bytes(l@.skip(k as int), (m - acc) as nat),
        decreases l@.len() - k,
    {
        let w = char_width(l[k]);
        proof {
            assert(l@.skip(k as int)[0] == l@[k as int]);
            assert(l@.skip(k as int).skip(1) =~= l@.skip(k + 1));
        }
        acc = acc + w;
        k += 1;
    }
    proof {
        if k < l@.len() {
            assert(l@.skip(k as int)[0] == l@[k as int]);
        }
        assert(chars_for_bytes(l@.skip(k as int), (m - acc) as nat) == 0);
    }
    k
}

/// Whether byte `m` of `l` falls between characters (see `at_boundary`).
fn at_boundary_exec(l: &[char], m: usize) -> (r: bool)
    requires
        byte_len(l@) <= usize::MAX,
    ensures
        r == at_boundary(l@, m as nat),
{
    let mut k: usize = 0;
    let mut acc: usize = 0;
    assert(l@.take(0) =~= Seq::<char>::empty());
    assert(l@.skip(0) =~= l@);
    while k < l.len() && acc < m && char_width(l[k]) <= m - acc
        invariant
            k <= l@.len(),
            acc <= m,
            acc == byte_len(l@.take(k as int)),
            chars_for_bytes(l@, m as nat) == k + chars_for_bytes(l@.skip(k as int), (m - acc) as nat),
        decreases l@.len() - k,
    {
        let w = char_width(l[k]);
        proof {
            assert(l@.skip(k as int)[0] == l@[k as int]);
            assert(l@.skip(k as int).skip(1) =~= l@.skip(k + 1));
            assert(l@.take(k + 1) =~= l@.take(k as int) + seq![l@[k as int]]);
            lemma_byte_len_concat(l@.take(k as int), seq![l@[k as int]]);
            lemma_byte_len_first(seq![l@[k as int]]);
            assert(seq![l@[k as int]].skip(1) =~= Seq::<char>::empty());
        }
        acc = acc + w;
        k += 1;
    }
    proof {
        if k < l@.len() {
            assert(l@.skip(k as int)[0] == l@[k as int]);
        }
        assert(chars_for_bytes(l@.skip(k as int), (m - acc) as nat) == 0);
    }
    acc == m
}

fn detab_exec(text: &[char]) -> (r: Vec<char>)
    ensures
        r@ == detab(text@),
{
    proof {
        reveal_strlit("\t");
    }
    crate::text::replace_str(text, "\t", "    ")
}

/// The smallest indentation of the non-blank lines (see `min_indent`).
fn min_indent_exec(ls: &Vec<Vec<char>>, Ghost(t): Ghost<Seq<char>>) -> (r: Option<usize>)
    requires
        vv(ls@) == lines(t),
        byte_len(t) <= usize::MAX,
    ensures
        match r {
            Some(m) => min_indent(vv(ls@)) == Some(m as nat),
            None => min_indent(vv(ls@)) is None,
        },
{
    proof {
        crate::text::lemma_lines_byte_len(t);
    }
    let mut m: Option<usize> = None;
    let mut i: usize = 0;
    while i < ls.len()
        invariant
            i <= ls@.len(),
            vv(ls@) == lines(t),
            byte_len(t) <= usize::MAX,
            forall|j: int| 0 <= j < lines(t).len() ==> byte_len(#[trigger] lines(t)[j]) <= byte_len(t),
            match m {
                Some(x) => min_indent(vv(ls@).take(i as int)) == Some(x as nat),
                None => min_indent(vv(ls@).take(i as int)) is None,
            },
        decreases ls@.len() - i,
    {
        assert(vv(ls@).take(i + 1).drop_last() =~= vv(ls@).take(i as int));
        assert(vv(ls@).take(i + 1).last() == ls@[i as int]@);
        assert(lines(t)[i as int] == ls@[i as int]@);
        if crate::text::trim_exec(ls[i].as_slice()).len() != 0 {
            let ib = indent_of(ls[i].as_slice());
            m = match m {
                None => Some(ib),
                Some(x) => Some(if ib < x { ib } else { x }),
            };
        }
        i += 1;
    }
    assert(vv(ls@).take(ls@.len() as int) =~= vv(ls@));
    m
}

/// Whether unindenting `text` is safe (see `unindent_ok`).
pub fn unindent_is_safe(text: &[char]) -> (r: bool)
    ensures
        r == unindent_ok(text@),
{
    let t = detab_exec(text);
    if crate::text::byte_len_upto(t.as_slice(), usize::MAX).is_none() {
        return false;
    }
    let ls = lines_exec(t.as_slice());
    proof {
        crate::text::lemma_lines_byte_len(t@);
    }
    let m = match min_indent_exec(&ls, Ghost(t@)) {
        Some(m) => m,
        None => return true,
    };
    if m == 0 {
        return true;
    }
    let mut i: usize = 0;
    while i < ls.len()
        invariant
            i <= ls@.len(),
            vv(ls@) == lines(detab(text@)),
            byte_len(detab(text@)) <= usize::MAX,
            forall|j: int| 0 <= j < lines(t@).len() ==> byte_len(#[trigger] lines(t@)[j]) <= byte_len(t@),
            t@ == detab(text@),
            min_indent(vv(ls@)) == Some(m as nat),
            m > 0,
            forall|j: int| 0 <= j < i && byte_len(vv(ls@)[j]) >= m ==> #[trigger] at_boundary(vv(ls@)[j], m as nat),
        decreases ls@.len() - i,
    {
        assert(lines(t@)[i as int] == ls@[i as int]@);
        let bl = byte_len_exec(ls[i].as_slice());
        if bl >= m && !at_boundary_exec(ls[i].as_slice(), m) {
            assert(!at_boundary(vv(ls@)[i as int], m as nat));
            return false;
        }
        i += 1;
    }
    true
}

proof fn lemma_unindent_ok_at(text: Seq<char>, m: nat, i: int)
    requires
        unindent_ok(text),
        min_indent(lines(detab(text))) == Some(m),
        m > 0,
        0 <= i < lines(detab(text)).len(),
        byte_len(lines(detab(text))[i]) >= m,
    ensures
        at_boundary(lines(detab(text))[i], m),
{
    let ls = lines(detab(text));
    assert(byte_len(detab(text)) <= usize::MAX);
    assert(match min_indent(ls) {
        Some(mm) => mm > 0 ==> forall|j: int|
            0 <= j < ls.len() && byte_len(ls[j]) >= mm ==> #[trigger] at_boundary(ls[j], mm),
        None => true,
    });
    assert(forall|j: int| 0 <= j < ls.len() && byte_len(ls[j]) >= m ==> #[trigger] at_boundary(ls[j], m));
}

/// `text` with tabs expanded and the shared indentation removed (see
/// `unindent_spec`).
pub fn unindent(text: &[char]) -> (r: Vec<char>)
    requires
        unindent_ok(text@),
    ensures
        r@ == unindent_spec(text@),
{
    let t = detab_exec(text);
    let ls = lines_exec(t.as_slice());
    proof {
        crate::text::lemma_lines_byte_len(t@);
    }
    let m = match min_indent_exec(&ls, Ghost(t@)) {
        Some(m) => m,
        None => return t,
    };
    if m == 0 {
        return t;
    }
    let mut cut: Vec<Vec<char>> = Vec::new();
    let mut i: usize = 0;
    while i < ls.len()
        invariant
            i <= ls@.len(),
            vv(ls@) == lines(t@),
            t@ == detab(text@),
            unindent_ok(text@),
            byte_len(t@) <= usize::MAX,
            forall|j: int| 0 <= j < lines(t@).len() ==> byte_len(#[trigger] lines(t@)[j]) <= byte_len(t@),
            min_indent(vv(ls@)) == Some(m as nat),
            m > 0,
            vv(cut@) == vv(ls@).take(i as int).map_values(|l: Seq<char>| cut_line(l, m as nat)),
        decreases ls@.len() - i,
    {
        assert(lines(t@)[i as int] == ls@[i as int]@);
        assert(byte_len(vv(ls@)[i as int]) >= m ==> at_boundary(vv(ls@)[i as int], m as nat)) by {
            let tl = lines(detab(text@));
            assert(tl == vv(ls@));
            assert(min_indent(tl) == Some(m as nat));
            if byte_len(tl[i as int]) >= m {
                lemma_unindent_ok_at(text@, m as nat, i as int);
                assert(at_boundary(tl[i as int], m as nat));
            }
        }
        let c = cut_line_exec(ls[i].as_slice(), m);
        let ghost before = cut@;
        cut.push(c);
        proof {
            crate::text::lemma_vv_push(before, c);
        }
        assert(vv(ls@).take(i + 1) =~= vv(ls@).take(i as int).push(ls@[i as int]@));
        assert(vv(cut@) =~= vv(ls@).take(i + 1).map_values(|l: Seq<char>| cut_line(l, m as nat)));
        i += 1;
    }
    assert(vv(ls@).take(ls@.len() as int) =~= vv(ls@));
    let nl = to_chars("\n");
    join_exec(cut.as_slice(), nl.as_slice())
}

/// The most lines a whole file may have to be shown without a range.
pub const MAX_ENTIRE_FILE_LINES: usize = 20;

/// The part of the file a link asks for, before unindenting: a range of
/// lines (from the first line, up to the end of the file), one line, or
/// the whole file when it is short and not Markdown. `None` when the
/// range starts past the end, the line does not exist, or the whole file
/// may not be shown.
pub open spec fn selected_text(link: GitFileLinkView, content: Seq<char>) -> Option<Seq<char>> {
    let ls = lines(content);
    match (link.start_line, link.end_line) {
        (Some(s), Some(e)) => {
            let si: int = if s == 0 { 0 } else { s - 1 };
            let ei: int = if e < ls.len() { e as int } else { ls.len() as int };
            if si >= ls.len() {
                None
            } else {
                Some(join(ls.subrange(si, ei), "\n"@))
            }
        },
        (Some(s), None) => {
            let idx: int = if s == 0 { 0 } else { s - 1 };
            if idx < ls.len() {
                Some(ls[idx])
            } else {
                None
            }
        },
        _ => if language_spec(link.file_name) == "md"@ || ls.len() > MAX_ENTIRE_FILE_LINES {
            None
        } else {
            Some(content)
        },
    }
}

/// A range whose end comes before its start cannot be cut out.
pub open spec fn range_ok(link: GitFileLinkView, content: Seq<char>) -> bool {
    let ls = lines(content);
    match (link.start_line, link.end_line) {
        (Some(s), Some(e)) => {
            let si: int = if s == 0 { 0 } else { s - 1 };
            let ei: int = if e < ls.len() { e as int } else { ls.len() as int };
            si < ls.len() ==> si <= ei
        },
        _ => true,
    }
}

/// The lines a link asks for, unindented.
pub open spec fn extract_lines_spec(link: GitFileLinkView, content: Seq<char>) -> Option<Seq<char>> {
    match selected_text(link, content) {
        Some(t) => Some(unindent_spec(t)),
        None => None,
    }
}

/// Extracting the lines of `content` is safe: the range is in order and
/// the selected text can be unindented.
pub open spec fn extract_ok(link: GitFileLinkView, content: Seq<char>) -> bool {
    range_ok(link, content) && match selected_text(link, content) {
        Some(t) => unindent_ok(t),
        None => true,
    }
}

fn select_exec(link: &GitFileLink, content: &[char]) -> (r: Option<Vec<char>>)
    requires
        range_ok(link.view(), content@),
    ensures
        match r {
            Some(t) => selected_text(link.view(), content@) == Some(t@),
            None => selected_text(link.view(), content@) is None,
        },
{
    let ls = lines_exec(content);
    match (link.start_line, link.end_line) {
        (Some(s), Some(e)) => {
            let si: usize = if s == 0 { 0 } else { (s - 1) as usize };
            let ei: usize = if (e as usize) < ls.len() { e as usize } else { ls.len() };
            if si >= ls.len() {
                return None;
            }
            let part = vstd::slice::slice_subrange(ls.as_slice(), si, ei);
            assert(vv(part@) =~= vv(ls@).subrange(si as int, ei as int));
            let nl = to_chars("\n");
            Some(join_exec(part, nl.as_slice()))
        },
        (Some(s), None) => {
            let idx: usize = if s == 0 { 0 } else { (s - 1) as usize };
            if idx < ls.len() {
                Some(vstd::slice::slice_to_vec(ls[idx].as_slice()))
            } else {
                None
            }
        },
        _ => {
            let lang = link.get_language();
            if crate::text::eq_str(to_chars(lang.as_str()).as_slice(), "md") || ls.len() > MAX_ENTIRE_FILE_LINES {
                None
            } else {
                Some(vstd::slice::slice_to_vec(content))
            }
        },
    }
}

impl GitFileLink {
    /// Whether `extract_lines` may be called on `content` (see `extract_ok`).
    pub fn extract_is_safe(&self, content: &str) -> (r: bool)
        ensures
            r == extract_ok(self.view(), content@),
    {
        let c = to_chars(content);
        let ls = lines_exec(c.as_slice());
        if let (Some(s), Some(e)) = (self.start_line, self.end_line) {
            let si: usize = if s == 0 { 0 } else { (s - 1) as usize };
            let ei: usize = if (e as usize) < ls.len() { e as usize } else { ls.len() };
            if si < ls.len() && si > ei {
                return false;
            }
        }
        match select_exec(self, c.as_slice()) {
            Some(t) => unindent_is_safe(t.as_slice()),
            None => true,
        }
    }

    /// The lines the link asks for, unindented (see `extract_lines_spec`).
    pub fn extract_lines(&self, content: &str) -> (r: Option<String>)
        requires
            extract_ok(self.view(), content@),
        ensures
            match r {
                Some(t) => extract_lines_spec(self.view(), content@) == Some(t@),
                None => extract_lines_spec(self.view(), content@) is None,
            },
    {
        let c = to_chars(content);
        match select_exec(self, c.as_slice()) {
            Some(t) => {
                let u = unindent(t.as_slice());
                Some(from_chars(u.as_slice()))
            },
            None => None,
        }
    }
}

/// The line numbers shown after the file name.
pub open spec fn line_info_spec(start: Option<u32>, end: Option<u32>) -> Seq<char> {
    match (start, end) {
        (Some(s), Some(e)) => if s == e {
            " Line "@ + decimal(s as nat)
        } else {
            " Lines "@ + decimal(s as nat) + "-"@ + decimal(e as nat)
        },
        (Some(l), None) => " Line "@ + decimal(l as nat),
        _ => seq![],
    }
}

/// The file text a snippet is cut from: the page as plain text for a
/// rustdoc source page, the raw file otherwise.
pub open spec fn file_text(link: GitFileLinkView, raw: Seq<char>) -> Seq<char> {
    if link.platform == GitPlatform::RustDoc {
        strip_html_spec(raw)
    } else {
        raw
    }
}

/// The reply to a file link: the file name, the lines, and the snippet in
/// a code block of the file's language; an error when no snippet can be
/// shown.
pub open spec fn format_response_spec(link: GitFileLinkView, raw: Seq<char>) -> Result<Seq<char>, Seq<char>> {
    match extract_lines_spec(link, file_text(link, raw)) {
        None => Err("File too long or invalid"@),
        Some(t) => Ok(
            "**"@ + link.file_name + ":**"@ + line_info_spec(link.start_line, link.end_line) + "\n```"@
                + language_spec(link.file_name) + "\n"@ + t + "\n```"@,
        ),
    }
}

fn line_info(start: Option<u32>, end: Option<u32>) -> (r: Vec<char>)
    ensures
        r@ == line_info_spec(start, end),
{
    let mut out: Vec<char> = Vec::new();
    match (start, end) {
        (Some(s), Some(e)) => {
            if s == e {
                append_str(&mut out, " Line ");
                append(&mut out, decimal_exec(s as u64).as_slice());
            } else {
                append_str(&mut out, " Lines ");
                append(&mut out, decimal_exec(s as u64).as_slice());
                append_str(&mut out, "-");
                append(&mut out, decimal_exec(e as u64).as_slice());
            }
        },
        (Some(l), None) => {
            append_str(&mut out, " Line ");
            append(&mut out, decimal_exec(l as u64).as_slice());
        },
        _ => {},
    }
    out
}

impl GitFileLink {
    /// The text of the fetched file that snippets are cut from.
    pub fn content_of(&self, raw: &str) -> (r: String)
        ensures
            r@ == file_text(self.view(), raw@),
    {
        if self.platform == GitPlatform::RustDoc {
            strip_html(raw)
        } else {
            from_chars(to_chars(raw).as_slice())
        }
    }

    /// The reply to the link, given the fetched file (see
    /// `format_response_spec`).
    pub fn format_response(&self, raw: &str) -> (r: Result<String, String>)
        requires
            extract_ok(self.view(), file_text(self.view(), raw@)),
        ensures
            match r {
                Ok(s) => format_response_spec(self.view(), raw@) == Ok::<Seq<char>, Seq<char>>(s@),
                Err(e) => format_response_spec(self.view(), raw@) == Err::<Seq<char>, Seq<char>>(e@),
            },
    {
        let content = self.content_of(raw);
        let extracted = match self.extract_lines(content.as_str()) {
            Some(t) => t,
            None => return Err("File too long or invalid".to_string()),
        };
        let language = self.get_language();
        let mut out = to_chars("**");
        append_str(&mut out, self.file_name.as_str());
        append_str(&mut out, ":**");
        let info = line_info(self.start_line, self.end_line);
        append(&mut out, info.as_slice());
        append_str(&mut out, "\n```");
        append_str(&mut out, language.as_str());
        append_str(&mut out, "\n");
        append_str(&mut out, extracted.as_str());
        append_str(&mut out, "\n```");
        Ok(from_chars(out.as_slice()))
    }
}

} // verus!
