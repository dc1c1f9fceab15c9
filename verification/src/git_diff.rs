//! Commit and compare diffs from GitHub and GitLab: reading a unified diff
//! into per-file summaries, rendering them as pages, and the URLs and cache
//! keys that go with a commit reference.
use vstd::prelude::*;
use crate::text::{
    after_last, after_last_exec, append, append_str, byte_len, byte_len_exec, contains,
    contains_exec, ends_with, ends_with_exec, eq_exec, from_chars, join, join_exec, lemma_byte_len_concat,
    lines, lines_exec, byte_len_upto, replace, replace_str, split_exec, split_seq, starts_with, starts_with_str,
    strip_prefix, strip_prefix_exec, to_chars, trim, trim_exec, vv,
};
use crate::num::{decimal, decimal_exec};
use crate::pattern::{captures, group, group_exec, groups_view, percent_encode_bytes, regex_captures, url_encode};
use crate::json::{Json, as_array, get, get_str, get_str_or_empty, jarr, jget, jget_str, jget_str_or_empty};
use crate::text::{rfind, rsplit_once_exec, rsplit_once, split_once, split_once_exec, lemma_find, find};

verus! {

pub const MAX_DIFF_CHARS_PER_FILE: usize = 1800;
pub const FILES_PER_PAGE: usize = 1;

#[derive(PartialEq, Eq, Structural, Clone, Copy, Debug)]
pub enum GitPlatform {
    GitHub,
    GitLab,
}

/// A commit or compare view on GitHub or GitLab.
pub struct CommitDiff {
    pub platform: GitPlatform,
    pub owner: String,
    pub repo: String,
    /// The commit hash, or the compared range for a compare view.
    pub commit: String,
    pub diff_hash: Option<String>,
    pub host: Option<String>,
    pub file_filter: Option<String>,
    pub is_compare: bool,
}

/// One file's part of a diff.
pub struct FileDiff {
    pub file_path: String,
    pub changes: String,
    pub additions: usize,
    pub deletions: usize,
}

pub open spec fn opt_view(o: Option<String>) -> Option<Seq<char>> {
    match o {
        Some(s) => Some(s@),
        None => None,
    }
}

/// The running state of the scan over a file's diff lines.
pub struct DiffScan {
    pub kept: Seq<Seq<char>>,
    pub used: nat,
    pub truncated: bool,
    pub additions: nat,
    pub deletions: nat,
}

/// A hunk header or an added or removed line.
pub open spec fn is_change_line(l: Seq<char>) -> bool {
    starts_with(l, "@@"@) || starts_with(l, "+"@) || starts_with(l, "-"@)
}

pub open spec fn is_addition(l: Seq<char>) -> bool {
    starts_with(l, "+"@) && !starts_with(l, "+++"@)
}

pub open spec fn is_deletion(l: Seq<char>) -> bool {
    starts_with(l, "-"@) && !starts_with(l, "---"@)
}

/// One line of the scan: change lines are kept while their bytes (with a
/// newline each) fit in `MAX_DIFF_CHARS_PER_FILE`, a single `...` marks the
/// first line that does not fit, and additions and deletions are counted
/// whether kept or not.
pub open spec fn scan_step(st: DiffScan, l: Seq<char>) -> DiffScan {
    if !is_change_line(l) {
        st
    } else {
        let w = byte_len(l) + 1;
        let (kept, used, truncated) = if st.used + w <= MAX_DIFF_CHARS_PER_FILE {
            (st.kept.push(l), st.used + w, st.truncated)
        } else if !st.truncated {
            (st.kept.push("..."@), st.used, true)
        } else {
            (st.kept, st.used, st.truncated)
        };
        DiffScan {
            kept,
            used,
            truncated,
            additions: st.additions + if is_addition(l) { 1nat } else { 0nat },
            deletions: st.deletions + if is_deletion(l) { 1nat } else { 0nat },
        }
    }
}

pub open spec fn scan_lines(ls: Seq<Seq<char>>) -> DiffScan
    decreases ls.len(),
{
    if ls.len() == 0 {
        DiffScan { kept: seq![], used: 0, truncated: false, additions: 0, deletions: 0 }
    } else {
        scan_step(scan_lines(ls.drop_last()), ls.last())
    }
}

/// The first line that starts with `+++`.
pub open spec fn first_plus_line(ls: Seq<Seq<char>>) -> Option<Seq<char>>
    decreases ls.len(),
{
    if ls.len() == 0 {
        None
    } else if starts_with(ls[0], "+++"@) {
        Some(ls[0])
    } else {
        first_plus_line(ls.drop_first())
    }
}

/// The path named by the first `+++` line when it has the form `+++ b/<path>`,
/// else `unknown`.
pub open spec fn diff_file_path(ls: Seq<Seq<char>>) -> Seq<char> {
    match first_plus_line(ls) {
        Some(l) => match strip_prefix(l, "+++ b/"@) {
            Some(p) => p,
            None => "unknown"@,
        },
        None => "unknown"@,
    }
}

/// What a section of a diff (the text after one `diff --git`) reads as:
/// the path, the kept change lines joined by newlines, and the counts; no
/// result for a section without lines.
pub open spec fn parse_file_diff_spec(section: Seq<char>) -> Option<(Seq<char>, Seq<char>, nat, nat)> {
    let ls = lines(section);
    if ls.len() == 0 {
        None
    } else {
        let st = scan_lines(ls);
        Some((diff_file_path(ls), join(st.kept, "\n"@), st.additions, st.deletions))
    }
}

pub open spec fn file_diff_view(f: FileDiff) -> (Seq<char>, Seq<char>, nat, nat) {
    (f.file_path@, f.changes@, f.additions as nat, f.deletions as nat)
}

/// The sections of a diff that hold something besides whitespace.
pub open spec fn nonblank_sections(secs: Seq<Seq<char>>) -> Seq<Seq<char>>
    decreases secs.len(),
{
    if secs.len() == 0 {
        seq![]
    } else if trim(secs.last()).len() == 0 {
        nonblank_sections(secs.drop_last())
    } else {
        nonblank_sections(secs.drop_last()).push(secs.last())
    }
}

/// The file summaries of a whole diff, one per non-blank `diff --git`
/// section, in order.
pub open spec fn parse_diff_files_spec(diff: Seq<char>) -> Seq<(Seq<char>, Seq<char>, nat, nat)> {
    nonblank_sections(split_seq(diff, "diff --git"@)).map_values(
        |sec: Seq<char>| parse_file_diff_spec(sec).unwrap(),
    )
}

fn first_plus_path(ls: &Vec<Vec<char>>) -> (r: Vec<char>)
    ensures
        r@ == diff_file_path(vv(ls@)),
{
    let mut i: usize = 0;
    assert(vv(ls@).skip(0) =~= vv(ls@));
    while i < ls.len()
        invariant
            i <= ls@.len(),
            first_plus_line(vv(ls@)) == first_plus_line(vv(ls@).skip(i as int)),
        decreases ls@.len() - i,
    {
        assert(vv(ls@).skip(i as int)[0] == ls@[i as int]@);
        assert(vv(ls@).skip(i as int).drop_first() =~= vv(ls@).skip(i + 1));
        if starts_with_str(ls[i].as_slice(), "+++") {
            let p = to_chars("+++ b/");
            return match strip_prefix_exec(ls[i].as_slice(), p.as_slice()) {
                Some(rest) => vstd::slice::slice_to_vec(rest),
                None => to_chars("unknown"),
            };
        }
        i += 1;
    }
    assert(vv(ls@).skip(i as int) =~= Seq::<Seq<char>>::empty());
    to_chars("unknown")
}

fn is_change_line_exec(l: &[char]) -> (r: bool)
    ensures
        r == is_change_line(l@),
{
    starts_with_str(l, "@@") || starts_with_str(l, "+") || starts_with_str(l, "-")
}

fn byte_len_exec_small(l: &[char]) -> (r: usize)
    requires
        byte_len(l@) <= MAX_DIFF_CHARS_PER_FILE,
    ensures
        r == byte_len(l@),
{
    byte_len_exec(l)
}

/// Reads one section of a diff (see `parse_file_diff_spec`).
pub fn parse_file_diff(section: &[char]) -> (r: Option<FileDiff>)
    ensures
        match r {
            Some(f) => parse_file_diff_spec(section@) == Some(file_diff_view(f)),
            None => parse_file_diff_spec(section@) is None,
        },
{
    let ls = lines_exec(section);
    if ls.len() == 0 {
        return None;
    }
    let file_path = first_plus_path(&ls);
    let mut kept: Vec<Vec<char>> = Vec::new();
    let mut used: usize = 0;
    let mut truncated = false;
    let mut additions: usize = 0;
    let mut deletions: usize = 0;
    let mut i: usize = 0;
    while i < ls.len()
        invariant
            i <= ls@.len(),
            vv(kept@) == scan_lines(vv(ls@.take(i as int))).kept,
            used == scan_lines(vv(ls@.take(i as int))).used,
            truncated == scan_lines(vv(ls@.take(i as int))).truncated,
            additions == scan_lines(vv(ls@.take(i as int))).additions,
            deletions == scan_lines(vv(ls@.take(i as int))).deletions,
            additions <= i,
            deletions <= i,
            used <= MAX_DIFF_CHARS_PER_FILE,
        decreases ls@.len() - i,
    {
        let l = ls[i].as_slice();
        assert(vv(ls@.take(i + 1)).drop_last() =~= vv(ls@.take(i as int)));
        assert(vv(ls@.take(i + 1)).last() == l@);
        proof {
            reveal_strlit("+");
            reveal_strlit("-");
        }
        if is_change_line_exec(l) {
            let fits = match byte_len_upto(l, MAX_DIFF_CHARS_PER_FILE - used) {
                Some(b) => b + 1 <= MAX_DIFF_CHARS_PER_FILE - used,
                None => false,
            };
            if fits {
                let b = byte_len_exec_small(l);
                kept.push(vstd::slice::slice_to_vec(l));
                used = used + b + 1;
            } else if !truncated {
                kept.push(to_chars("..."));
                truncated = true;
            }
            if starts_with_str(l, "+") && !starts_with_str(l, "+++") {
                additions += 1;
            }
            if starts_with_str(l, "-") && !starts_with_str(l, "---") {
                deletions += 1;
            }
        }
        i += 1;
    }
    assert(ls@.take(ls@.len() as int) =~= ls@);
    let nl = to_chars("\n");
    let changes = join_exec(kept.as_slice(), nl.as_slice());
    Some(FileDiff {
        file_path: from_chars(file_path.as_slice()),
        changes: from_chars(changes.as_slice()),
        additions,
        deletions,
    })
}


pub const GITHUB_COMMIT_PATTERN: &'static str = r"https?://(?:www\.)?github\.com/([^/]+)/([^/]+)/commit/([a-f0-9]+)(?:#diff-([a-f0-9]+))?";
pub const GITHUB_COMPARE_PATTERN: &'static str = r"https?://(?:www\.)?github\.com/([^/]+)/([^/]+)/compare/(.+)";
pub const GITLAB_COMMIT_PATTERN: &'static str = r"https?://([^/]+)/(.+?)/-/commit/([a-f0-9]+)(?:#diff-([a-f0-9]+))?";
pub const GITLAB_COMPARE_PATTERN: &'static str = r"https?://([^/]+)/(.+?)/-/compare/([^?]+)";

/// A commit reference as values.
pub struct CommitView {
    pub platform: GitPlatform,
    pub owner: Seq<char>,
    pub repo: Seq<char>,
    pub commit: Seq<char>,
    pub diff_hash: Option<Seq<char>>,
    pub host: Option<Seq<char>>,
    pub file_filter: Option<Seq<char>>,
    pub is_compare: bool,
}

impl CommitDiff {
    pub open spec fn view(&self) -> CommitView {
        CommitView {
            platform: self.platform,
            owner: self.owner@,
            repo: self.repo@,
            commit: self.commit@,
            diff_hash: opt_view(self.diff_hash),
            host: opt_view(self.host),
            file_filter: opt_view(self.file_filter),
            is_compare: self.is_compare,
        }
    }
}

pub open spec fn caps_view(c: Option<Vec<Option<String>>>) -> Option<Seq<Option<Seq<char>>>> {
    match c {
        Some(v) => Some(groups_view(v@)),
        None => None,
    }
}

/// The GitLab project path split into namespace and project name at its
/// last `/` (an empty namespace when there is none).
pub open spec fn namespace_of(path: Seq<char>) -> Seq<char> {
    match rfind(path, "/"@) {
        Some(i) => path.take(i),
        None => seq![],
    }
}

pub open spec fn github_commit_from(caps: Option<Seq<Option<Seq<char>>>>) -> Option<CommitView> {
    match caps {
        None => None,
        Some(c) => match (group(c, 1), group(c, 2), group(c, 3)) {
            (Some(owner), Some(repo), Some(commit)) => Some(CommitView {
                platform: GitPlatform::GitHub,
                owner,
                repo,
                commit,
                diff_hash: group(c, 4),
                host: None,
                file_filter: None,
                is_compare: false,
            }),
            _ => None,
        },
    }
}

pub open spec fn github_compare_from(caps: Option<Seq<Option<Seq<char>>>>) -> Option<CommitView> {
    match caps {
        None => None,
        Some(c) => match (group(c, 1), group(c, 2), group(c, 3)) {
            (Some(owner), Some(repo), Some(range)) => Some(CommitView {
                platform: GitPlatform::GitHub,
                owner,
                repo,
                commit: range,
                diff_hash: None,
                host: None,
                file_filter: None,
                is_compare: true,
            }),
            _ => None,
        },
    }
}

pub open spec fn gitlab_from(caps: Option<Seq<Option<Seq<char>>>>, is_compare: bool) -> Option<CommitView> {
    match caps {
        None => None,
        Some(c) => match (group(c, 1), group(c, 2), group(c, 3)) {
            (Some(host), Some(path), Some(commit)) => Some(CommitView {
                platform: GitPlatform::GitLab,
                owner: namespace_of(path),
                repo: crate::text::after_last(path, "/"@),
                commit,
                diff_hash: if is_compare { None } else { group(c, 4) },
                host: Some(host),
                file_filter: None,
                is_compare,
            }),
            _ => None,
        },
    }
}

/// What `CommitDiff::parse` reads from a URL: the first of the GitHub
/// commit, GitHub compare, GitLab commit and GitLab compare forms that
/// matches.
pub open spec fn commit_parse_spec(url: Seq<char>) -> Option<CommitView> {
    match github_commit_from(regex_captures(GITHUB_COMMIT_PATTERN@, url)) {
        Some(c) => Some(c),
        None => match github_compare_from(regex_captures(GITHUB_COMPARE_PATTERN@, url)) {
            Some(c) => Some(c),
            None => match gitlab_from(regex_captures(GITLAB_COMMIT_PATTERN@, url), false) {
                Some(c) => Some(c),
                None => gitlab_from(regex_captures(GITLAB_COMPARE_PATTERN@, url), true),
            },
        },
    }
}

fn opt_string(o: Option<Vec<char>>) -> (r: Option<String>)
    ensures
        opt_view(r) == match o {
            Some(v) => Some(v@),
            None => None::<Seq<char>>,
        },
{
    match o {
        Some(v) => Some(from_chars(v.as_slice())),
        None => None,
    }
}

impl CommitDiff {
    /// A GitHub commit reference from the captures of `GITHUB_COMMIT_PATTERN`.
    pub fn from_github_commit_captures(caps: Option<Vec<Option<String>>>) -> (r: Option<CommitDiff>)
        ensures
            match r {
                Some(c) => github_commit_from(caps_view(caps)) == Some(c.view()),
                None => github_commit_from(caps_view(caps)) is None,
            },
    {
        let c = match caps {
            Some(c) => c,
            None => return None,
        };
        let owner = match group_exec(&c, 1) { Some(g) => g, None => return None };
        let repo = match group_exec(&c, 2) { Some(g) => g, None => return None };
        let commit = match group_exec(&c, 3) { Some(g) => g, None => return None };
        let diff_hash = opt_string(group_exec(&c, 4));
        Some(CommitDiff {
            platform: GitPlatform::GitHub,
            owner: from_chars(owner.as_slice()),
            repo: from_chars(repo.as_slice()),
            commit: from_chars(commit.as_slice()),
            diff_hash,
            host: None,
            file_filter: None,
            is_compare: false,
        })
    }

    /// A GitHub compare reference from the captures of `GITHUB_COMPARE_PATTERN`.
    pub fn from_github_compare_captures(caps: Option<Vec<Option<String>>>) -> (r: Option<CommitDiff>)
        ensures
            match r {
                Some(c) => github_compare_from(caps_view(caps)) == Some(c.view()),
                None => github_compare_from(caps_view(caps)) is None,
            },
    {
        let c = match caps {
            Some(c) => c,
            None => return None,
        };
        let owner = match group_exec(&c, 1) { Some(g) => g, None => return None };
        let repo = match group_exec(&c, 2) { Some(g) => g, None => return None };
        let range = match group_exec(&c, 3) { Some(g) => g, None => return None };
        Some(CommitDiff {
            platform: GitPlatform::GitHub,
            owner: from_chars(owner.as_slice()),
            repo: from_chars(repo.as_slice()),
            commit: from_chars(range.as_slice()),
            diff_hash: None,
            host: None,
            file_filter: None,
            is_compare: true,
        })
    }

    /// A GitLab commit (or, with `is_compare`, compare) reference from the
    /// captures of `GITLAB_COMMIT_PATTERN` (or `GITLAB_COMPARE_PATTERN`).
    pub fn from_gitlab_captures(caps: Option<Vec<Option<String>>>, is_compare: bool) -> (r: Option<CommitDiff>)
        ensures
            match r {
                Some(c) => gitlab_from(caps_view(caps), is_compare) == Some(c.view()),
                None => gitlab_from(caps_view(caps), is_compare) is None,
            },
    {
        let c = match caps {
            Some(c) => c,
            None => return None,
        };
        let host = match group_exec(&c, 1) { Some(g) => g, None => return None };
        let path = match group_exec(&c, 2) { Some(g) => g, None => return None };
        let commit = match group_exec(&c, 3) { Some(g) => g, None => return None };
        let diff_hash = if is_compare { None } else { opt_string(group_exec(&c, 4)) };
        let slash = to_chars("/");
        let (owner, repo): (Vec<char>, Vec<char>) = match rsplit_once_exec(path.as_slice(), slash.as_slice()) {
            Some((a, b)) => (vstd::slice::slice_to_vec(a), vstd::slice::slice_to_vec(b)),
            None => (Vec::new(), path.clone()),
        };
        proof {
            crate::text::lemma_rfind(path@, "/"@);
        }
        Some(CommitDiff {
            platform: GitPlatform::GitLab,
            owner: from_chars(owner.as_slice()),
            repo: from_chars(repo.as_slice()),
            commit: from_chars(commit.as_slice()),
            diff_hash,
            host: Some(from_chars(host.as_slice())),
            file_filter: None,
            is_compare,
        })
    }

    /// Recognizes a GitHub or GitLab commit or compare URL (see
    /// `commit_parse_spec`).
    pub fn parse(url: &str) -> (r: Option<CommitDiff>)
        ensures
            match r {
                Some(c) => commit_parse_spec(url@) == Some(c.view()),
                None => commit_parse_spec(url@) is None,
            },
    {
        if let Some(c) = Self::from_github_commit_captures(captures(GITHUB_COMMIT_PATTERN, url)) {
            return Some(c);
        }
        if let Some(c) = Self::from_github_compare_captures(captures(GITHUB_COMPARE_PATTERN, url)) {
            return Some(c);
        }
        if let Some(c) = Self::from_gitlab_captures(captures(GITLAB_COMMIT_PATTERN, url), false) {
            return Some(c);
        }
        Self::from_gitlab_captures(captures(GITLAB_COMPARE_PATTERN, url), true)
    }
}


pub proof fn lemma_lines_empty(s: Seq<char>)
    ensures
        (lines(s).len() == 0) == (s.len() == 0),
{
    if s.len() > 0 {
        crate::text::lemma_find(s, seq!['\n']);
    }
}

fn nonblank(s: &[char]) -> (r: bool)
    ensures
        r == (trim(s@).len() != 0),
{
    trim_exec(s).len() != 0
}

/// Reads a whole diff into per-file summaries (see `parse_diff_files_spec`).
pub fn parse_diff_files(diff_content: &str) -> (r: Vec<FileDiff>)
    ensures
        r@.map_values(|f: FileDiff| file_diff_view(f)) == parse_diff_files_spec(diff_content@),
{
    let d = to_chars(diff_content);
    let sep = to_chars("diff --git");
    proof {
        reveal_strlit("diff --git");
    }
    let sections = split_exec(d.as_slice(), sep.as_slice());
    let ghost secs = vv(sections@);
    let mut files: Vec<FileDiff> = Vec::new();
    let mut i: usize = 0;
    while i < sections.len()
        invariant
            i <= sections@.len(),
            secs == vv(sections@),
            files@.map_values(|f: FileDiff| file_diff_view(f)) == nonblank_sections(secs.take(i as int)).map_values(
                |sec: Seq<char>| parse_file_diff_spec(sec).unwrap(),
            ),
        decreases sections@.len() - i,
    {
        let sec = sections[i].as_slice();
        assert(secs.take(i + 1).drop_last() =~= secs.take(i as int));
        assert(secs.take(i + 1).last() == sec@);
        if nonblank(sec) {
            proof {
                lemma_lines_empty(sec@);
            }
            let ghost before = files@;
            match parse_file_diff(sec) {
                Some(f) => {
                    files.push(f);
                    assert(files@.map_values(|f: FileDiff| file_diff_view(f)) =~= before.map_values(
                        |f: FileDiff| file_diff_view(f),
                    ).push(parse_file_diff_spec(sec@).unwrap()));
                },
                None => {},
            }
        }
        i += 1;
    }
    assert(secs.take(sections@.len() as int) =~= secs);
    files
}

/// A file path matches a filter when it contains it, ends with it, or its
/// last segment equals it.
pub open spec fn matches_filter_spec(path: Seq<char>, filter: Seq<char>) -> bool {
    contains(path, filter) || ends_with(path, filter) || after_last(path, "/"@) == filter
}

impl CommitDiff {
    /// Whether a file of the diff is the one the user asked for (every file
    /// matches when no filter was given).
    pub fn matches_filter(&self, file_path: &str) -> (r: bool)
        ensures
            r == match self.view().file_filter {
                None => true,
                Some(f) => matches_filter_spec(file_path@, f),
            },
    {
        match &self.file_filter {
            None => true,
            Some(filter) => {
                let p = to_chars(file_path);
                let f = to_chars(filter.as_str());
                let slash = to_chars("/");
                contains_exec(p.as_slice(), f.as_slice()) || ends_with_exec(p.as_slice(), f.as_slice())
                    || eq_exec(after_last_exec(p.as_slice(), slash.as_slice()), f.as_slice())
            },
        }
    }
}

pub open spec fn keep_matching(
    files: Seq<(Seq<char>, Seq<char>, nat, nat)>,
    filter: Option<Seq<char>>,
) -> Seq<(Seq<char>, Seq<char>, nat, nat)>
    decreases files.len(),
{
    if files.len() == 0 {
        seq![]
    } else {
        let rest = keep_matching(files.drop_last(), filter);
        match filter {
            Some(f) => if matches_filter_spec(files.last().0, f) {
                rest.push(files.last())
            } else {
                rest
            },
            None => rest.push(files.last()),
        }
    }
}

/// One page of a rendered diff: the file name, the counts, and the kept
/// lines in a `diff` code block with any triple backtick defused.
pub open spec fn diff_page(file: (Seq<char>, Seq<char>, nat, nat)) -> Seq<char> {
    "**"@ + after_last(file.0, "/"@) + "** `+"@ + decimal(file.2) + " -"@ + decimal(file.3) + "`\n```diff\n"@
        + replace(file.1, "```"@, "`\\``"@) + "\n```"@
}

/// The rendered pages of a commit's diff, or the message shown when no file
/// is left.
pub open spec fn format_diff_spec(filter: Option<Seq<char>>, diff: Seq<char>) -> Result<Seq<Seq<char>>, Seq<char>> {
    let files = keep_matching(parse_diff_files_spec(diff), filter);
    if files.len() == 0 {
        match filter {
            Some(f) => Err("No file matching '"@ + f + "' found in this commit"@),
            None => Err("No files changed in this commit"@),
        }
    } else {
        Ok(files.map_values(|f: (Seq<char>, Seq<char>, nat, nat)| diff_page(f)))
    }
}

pub open spec fn strings_view(v: Seq<String>) -> Seq<Seq<char>> {
    v.map_values(|s: String| s@)
}

fn render_page(f: &FileDiff) -> (r: String)
    ensures
        r@ == diff_page(file_diff_view(*f)),
{
    let p = to_chars(f.file_path.as_str());
    let slash = to_chars("/");
    let name = after_last_exec(p.as_slice(), slash.as_slice());
    let mut out = to_chars("**");
    append(&mut out, name);
    append_str(&mut out, "** `+");
    let a = decimal_exec(f.additions as u64);
    append(&mut out, a.as_slice());
    append_str(&mut out, " -");
    let d = decimal_exec(f.deletions as u64);
    append(&mut out, d.as_slice());
    append_str(&mut out, "`\n```diff\n");
    let c = to_chars(f.changes.as_str());
    proof {
        reveal_strlit("```");
    }
    let cleaned = replace_str(c.as_slice(), "```", "`\\``");
    append(&mut out, cleaned.as_slice());
    append_str(&mut out, "\n```");
    from_chars(out.as_slice())
}

impl CommitDiff {
    /// Renders a fetched diff as one page per file (see `format_diff_spec`).
    pub fn format_diff_response(&self, diff_content: &str) -> (r: Result<Vec<String>, String>)
        ensures
            match r {
                Ok(pages) => format_diff_spec(self.view().file_filter, diff_content@) == Ok::<Seq<Seq<char>>, Seq<char>>(strings_view(pages@)),
                Err(e) => format_diff_spec(self.view().file_filter, diff_content@) == Err::<Seq<Seq<char>>, Seq<char>>(e@),
            },
    {
        let files = parse_diff_files(diff_content);
        let ghost all = parse_diff_files_spec(diff_content@);
        let mut kept: Vec<&FileDiff> = Vec::new();
        let mut i: usize = 0;
        while i < files.len()
            invariant
                i <= files@.len(),
                all == files@.map_values(|f: FileDiff| file_diff_view(f)),
                kept@.map_values(|f: &FileDiff| file_diff_view(*f)) == keep_matching(all.take(i as int), self.view().file_filter),
            decreases files@.len() - i,
        {
            assert(all.take(i + 1).drop_last() =~= all.take(i as int));
            assert(all.take(i + 1).last() == file_diff_view(files@[i as int]));
            let ghost before = kept@;
            if self.matches_filter(files[i].file_path.as_str()) {
                kept.push(&files[i]);
                assert(kept@.map_values(|f: &FileDiff| file_diff_view(*f)) =~= before.map_values(
                    |f: &FileDiff| file_diff_view(*f),
                ).push(file_diff_view(files@[i as int])));
            }
            i += 1;
        }
        assert(all.take(files@.len() as int) =~= all);
        if kept.len() == 0 {
            return match &self.file_filter {
                Some(f) => {
                    let mut m = to_chars("No file matching '");
                    append_str(&mut m, f.as_str());
                    append_str(&mut m, "' found in this commit");
                    Err(from_chars(m.as_slice()))
                },
                None => Err("No files changed in this commit".to_string()),
            };
        }
        let ghost ks = kept@.map_values(|f: &FileDiff| file_diff_view(*f));
        let mut pages: Vec<String> = Vec::new();
        let mut j: usize = 0;
        while j < kept.len()
            invariant
                j <= kept@.len(),
                ks == kept@.map_values(|f: &FileDiff| file_diff_view(*f)),
                strings_view(pages@) == ks.take(j as int).map_values(|f: (Seq<char>, Seq<char>, nat, nat)| diff_page(f)),
            decreases kept@.len() - j,
        {
            let page = render_page(kept[j]);
            let ghost before = pages@;
            pages.push(page);
            assert(strings_view(pages@) =~= strings_view(before).push(page@));
            assert(ks.take(j + 1) =~= ks.take(j as int).push(ks[j as int]));
            assert(ks.take(j + 1).map_values(|f: (Seq<char>, Seq<char>, nat, nat)| diff_page(f)) =~= ks.take(
                j as int,
            ).map_values(|f: (Seq<char>, Seq<char>, nat, nat)| diff_page(f)).push(diff_page(ks[j as int])));
            j += 1;
        }
        assert(ks.take(kept@.len() as int) =~= ks);
        Ok(pages)
    }
}

}
verus! {

/// `owner/repo`, or the bare repository name when there is no owner.
pub open spec fn full_path_spec(c: CommitView) -> Seq<char> {
    if c.owner.len() == 0 {
        c.repo
    } else {
        c.owner + "/"@ + c.repo
    }
}

/// The GitLab host of a reference, `gitlab.com` when none was recorded.
pub open spec fn gitlab_host(c: CommitView) -> Seq<char> {
    match c.host {
        Some(h) => h,
        None => "gitlab.com"@,
    }
}

/// Where the diff of a commit or compare view is fetched from. A GitLab
/// compare of the form `from...to` goes through the repository compare API,
/// with the project path percent-encoded.
pub open spec fn diff_url_spec(c: CommitView) -> Seq<char> {
    match c.platform {
        GitPlatform::GitHub => "https://github.com/"@ + c.owner + "/"@ + c.repo + (if c.is_compare {
            "/compare/"@
        } else {
            "/commit/"@
        }) + c.commit + ".diff"@,
        GitPlatform::GitLab => {
            let host = gitlab_host(c);
            let path = full_path_spec(c);
            if c.is_compare {
                let parts = split_seq(c.commit, "..."@);
                if parts.len() == 2 {
                    "https://"@ + host + "/api/v4/projects/"@ + percent_encode_bytes(
                        vstd::utf8::encode_utf8(path),
                    ) + "/repository/compare?from="@ + parts[0] + "&to="@ + parts[1]
                        + "&straight=true"@
                } else {
                    "https://"@ + host + "/"@ + path + "/-/compare/"@ + c.commit + ".diff"@
                }
            } else {
                "https://"@ + host + "/"@ + path + "/-/commit/"@ + c.commit + ".diff"@
            }
        },
    }
}

impl CommitDiff {
    fn full_path(&self) -> (r: Vec<char>)
        ensures
            r@ == full_path_spec(self.view()),
    {
        let mut out = to_chars(self.owner.as_str());
        if out.len() == 0 {
            return to_chars(self.repo.as_str());
        }
        append_str(&mut out, "/");
        append_str(&mut out, self.repo.as_str());
        out
    }

    /// The URL of the raw diff (see `diff_url_spec`).
    pub fn diff_url(&self) -> (r: String)
        ensures
            r@ == diff_url_spec(self.view()),
    {
        let mut out: Vec<char> = Vec::new();
        match self.platform {
            GitPlatform::GitHub => {
                append_str(&mut out, "https://github.com/");
                append_str(&mut out, self.owner.as_str());
                append_str(&mut out, "/");
                append_str(&mut out, self.repo.as_str());
                if self.is_compare {
                    append_str(&mut out, "/compare/");
                } else {
                    append_str(&mut out, "/commit/");
                }
                append_str(&mut out, self.commit.as_str());
                append_str(&mut out, ".diff");
            },
            GitPlatform::GitLab => {
                let host: Vec<char> = match &self.host {
                    Some(h) => to_chars(h.as_str()),
                    None => to_chars("gitlab.com"),
                };
                let path = self.full_path();
                let commit = to_chars(self.commit.as_str());
                let dots = to_chars("...");
                proof {
                    reveal_strlit("...");
                }
                let parts = if self.is_compare {
                    split_exec(commit.as_slice(), dots.as_slice())
                } else {
                    Vec::new()
                };
                append_str(&mut out, "https://");
                append(&mut out, host.as_slice());
                if self.is_compare && parts.len() == 2 {
                    append_str(&mut out, "/api/v4/projects/");
                    let p = from_chars(path.as_slice());
                    let enc = url_encode(p.as_str());
                    append_str(&mut out, enc.as_str());
                    append_str(&mut out, "/repository/compare?from=");
                    append(&mut out, parts[0].as_slice());
                    append_str(&mut out, "&to=");
                    append(&mut out, parts[1].as_slice());
                    append_str(&mut out, "&straight=true");
                } else {
                    append_str(&mut out, "/");
                    append(&mut out, path.as_slice());
                    if self.is_compare {
                        append_str(&mut out, "/-/compare/");
                    } else {
                        append_str(&mut out, "/-/commit/");
                    }
                    append(&mut out, commit.as_slice());
                    append_str(&mut out, ".diff");
                }
            },
        }
        from_chars(out.as_slice())
    }

    /// Whether the fetched diff comes as a JSON document (a GitLab compare)
    /// rather than as diff text.
    pub fn diff_is_json(&self) -> (r: bool)
        ensures
            r == (self.platform == GitPlatform::GitLab && self.is_compare),
    {
        self.platform == GitPlatform::GitLab && self.is_compare
    }
}

} // verus!
verus! {

/// A path of a GitLab compare entry, `unknown` when it is missing.
pub open spec fn path_or_unknown(p: Option<Seq<char>>) -> Seq<char> {
    match p {
        Some(s) => s,
        None => "unknown"@,
    }
}

/// One entry of a GitLab compare response written back as a section of a
/// unified diff.
pub open spec fn gitlab_section(d: Json) -> Seq<char> {
    let old = path_or_unknown(jget_str(Some(d), "old_path"@));
    let new = path_or_unknown(jget_str(Some(d), "new_path"@));
    "diff --git a/"@ + old + " b/"@ + new + "\n"@ + "--- a/"@ + old + "\n"@ + "+++ b/"@ + new + "\n"@
        + jget_str_or_empty(Some(d), "diff"@) + "\n"@
}

pub open spec fn gitlab_sections(ds: Seq<Json>) -> Seq<char>
    decreases ds.len(),
{
    if ds.len() == 0 {
        seq![]
    } else {
        gitlab_sections(ds.drop_last()) + gitlab_section(ds.last())
    }
}

/// The diff text of a GitLab compare response: its `diffs` entries in order,
/// or an error when the response has no `diffs` array.
pub open spec fn gitlab_compare_diff_spec(j: Json) -> Result<Seq<char>, Seq<char>> {
    match jarr(jget(Some(j), "diffs"@)) {
        Some(ds) => Ok(gitlab_sections(ds)),
        None => Err("No diffs found in GitLab API response"@),
    }
}

fn str_or_unknown(p: Option<Vec<char>>) -> (r: Vec<char>)
    ensures
        r@ == path_or_unknown(match p {
            Some(v) => Some(v@),
            None => None,
        }),
{
    match p {
        Some(v) => v,
        None => to_chars("unknown"),
    }
}

#[verifier::rlimit(30)]
fn gitlab_section_exec(d: &Json) -> (r: Vec<char>)
    ensures
        r@ == gitlab_section(*d),
{
    let old = str_or_unknown(get_str(Some(d), "old_path"));
    let new = str_or_unknown(get_str(Some(d), "new_path"));
    let body = get_str_or_empty(Some(d), "diff");
    let mut out = to_chars("diff --git a/");
    append(&mut out, old.as_slice());
    append_str(&mut out, " b/");
    append(&mut out, new.as_slice());
    append_str(&mut out, "\n");
    append_str(&mut out, "--- a/");
    append(&mut out, old.as_slice());
    append_str(&mut out, "\n");
    append_str(&mut out, "+++ b/");
    append(&mut out, new.as_slice());
    append_str(&mut out, "\n");
    append(&mut out, body.as_slice());
    append_str(&mut out, "\n");
    out
}

/// Rebuilds the unified diff from a GitLab repository compare response (see
/// `gitlab_compare_diff_spec`).
pub fn gitlab_compare_diff(response: &Json) -> (r: Result<String, String>)
    ensures
        match r {
            Ok(s) => gitlab_compare_diff_spec(*response) == Ok::<Seq<char>, Seq<char>>(s@),
            Err(e) => gitlab_compare_diff_spec(*response) == Err::<Seq<char>, Seq<char>>(e@),
        },
{
    let ds = match as_array(get(Some(response), "diffs")) {
        Some(ds) => ds,
        None => return Err("No diffs found in GitLab API response".to_string()),
    };
    let mut out: Vec<char> = Vec::new();
    let mut i: usize = 0;
    while i < ds.len()
        invariant
            i <= ds@.len(),
            out@ == gitlab_sections(ds@.take(i as int)),
        decreases ds@.len() - i,
    {
        let sec = gitlab_section_exec(&ds[i]);
        let ghost before = out@;
        append(&mut out, sec.as_slice());
        assert(ds@.take(i + 1).drop_last() =~= ds@.take(i as int));
        i += 1;
    }
    assert(ds@.take(ds@.len() as int) =~= ds@);
    Ok(from_chars(out.as_slice()))
}

/// Pages made of `n` rendered files each, joined by a blank line.
pub open spec fn chunk_pages_spec(pages: Seq<Seq<char>>, n: nat) -> Seq<Seq<char>>
    decreases pages.len(),
{
    if pages.len() == 0 || n == 0 {
        seq![]
    } else if pages.len() <= n {
        seq![join(pages, "\n\n"@)]
    } else {
        seq![join(pages.take(n as int), "\n\n"@)] + chunk_pages_spec(pages.skip(n as int), n)
    }
}

/// `pages.chunks(FILES_PER_PAGE).map(|c| c.join("\n\n"))`.
pub fn chunk_pages(pages: &Vec<String>) -> (r: Vec<String>)
    ensures
        strings_view(r@) == chunk_pages_spec(strings_view(pages@), FILES_PER_PAGE as nat),
{
    let ghost all = strings_view(pages@);
    let mut out: Vec<String> = Vec::new();
    let mut i: usize = 0;
    let sep = to_chars("\n\n");
    assert(all.skip(0) =~= all);
    while i < pages.len()
        invariant
            i <= pages@.len(),
            all == strings_view(pages@),
            sep@ == "\n\n"@,
            strings_view(out@) + chunk_pages_spec(all.skip(i as int), FILES_PER_PAGE as nat)
                == chunk_pages_spec(all, FILES_PER_PAGE as nat),
        decreases pages@.len() - i,
    {
        let end: usize = if pages.len() - i <= FILES_PER_PAGE { pages.len() } else { i + FILES_PER_PAGE };
        let mut chunk: Vec<Vec<char>> = Vec::new();
        let mut j: usize = i;
        while j < end
            invariant
                i <= j <= end <= pages@.len(),
                all == strings_view(pages@),
                vv(chunk@) == all.subrange(i as int, j as int),
            decreases end - j,
        {
            let ghost before = chunk@;
            chunk.push(to_chars(pages[j].as_str()));
            proof {
                crate::text::lemma_vv_push(before, chunk@.last());
            }
            assert(all.subrange(i as int, j + 1) =~= all.subrange(i as int, j as int).push(all[j as int]));
            j += 1;
        }
        let joined = join_exec(chunk.as_slice(), sep.as_slice());
        let ghost rest = all.skip(i as int);
        assert(rest.skip(FILES_PER_PAGE as int) =~= all.skip(end as int) || end == pages@.len());
        if end == pages.len() {
            assert(rest =~= all.subrange(i as int, end as int));
        } else {
            assert(rest.take(FILES_PER_PAGE as int) =~= all.subrange(i as int, end as int));
            assert(rest.skip(FILES_PER_PAGE as int) =~= all.skip(end as int));
        }
        let ghost before = out@;
        out.push(from_chars(joined.as_slice()));
        assert(strings_view(out@) =~= strings_view(before).push(joined@));
        i = end;
        if i == pages.len() {
            assert(all.skip(i as int) =~= Seq::<Seq<char>>::empty());
        }
    }
    assert(all.skip(i as int) =~= Seq::<Seq<char>>::empty());
    out
}

/// The key under which a reference's rendered pages are cached.
pub open spec fn cache_key_spec(c: CommitView) -> Seq<char> {
    let kind = if c.is_compare { "cmp"@ } else { "cmt"@ };
    let base = match c.host {
        Some(h) => kind + ":"@ + h + ":"@ + c.owner + ":"@ + c.repo + ":"@ + c.commit,
        None => kind + ":github.com:"@ + c.owner + ":"@ + c.repo + ":"@ + c.commit,
    };
    match c.file_filter {
        Some(f) => base + ":"@ + f,
        None => base,
    }
}

/// The cache key of a reference (see `cache_key_spec`).
pub fn get_cache_key(commit: &CommitDiff) -> (r: String)
    ensures
        r@ == cache_key_spec(commit.view()),
{
    let mut out: Vec<char> = if commit.is_compare { to_chars("cmp") } else { to_chars("cmt") };
    match &commit.host {
        Some(h) => {
            append_str(&mut out, ":");
            append_str(&mut out, h.as_str());
            append_str(&mut out, ":");
        },
        None => {
            append_str(&mut out, ":github.com:");
        },
    }
    append_str(&mut out, commit.owner.as_str());
    append_str(&mut out, ":");
    append_str(&mut out, commit.repo.as_str());
    append_str(&mut out, ":");
    append_str(&mut out, commit.commit.as_str());
    if let Some(f) = &commit.file_filter {
        append_str(&mut out, ":");
        append_str(&mut out, f.as_str());
    }
    from_chars(out.as_slice())
}

} // verus!
