use genesis::git_file::{strip_html, GitFileLink, GitPlatform as FilePlatform};
use genesis::git_diff::{chunk_pages, get_cache_key, gitlab_compare_diff, parse_diff_files, CommitDiff, GitPlatform};
use genesis::json::Json;
use genesis::diff_links::{clean_url, is_commit_url, is_github_commit_url, is_gitlab_commit_url};

const SAMPLE_DIFF: &str = "diff --git a/src/a.rs b/src/a.rs\nindex 1..2 100644\n--- a/src/a.rs\n+++ b/src/a.rs\n@@ -1,2 +1,2 @@\n-old\n+new\n same\n";

fn github_commit() -> CommitDiff {
    CommitDiff::parse("https://github.com/o/r/commit/abc123#diff-def").unwrap()
}

#[test]
fn parse_github_file_link() {
    let l = GitFileLink::parse("https://github.com/owner/repo/blob/main/src/lib.rs#L10-L20").unwrap();
    assert_eq!(l.platform, FilePlatform::GitHub);
    assert_eq!(l.raw_url, "https://raw.githubusercontent.com/owner/repo/main/src/lib.rs");
    assert_eq!(l.file_name, "lib.rs");
    assert_eq!(l.start_line, Some(10));
    assert_eq!(l.end_line, Some(20));
    assert_eq!(l.original_url, "https://github.com/owner/repo/blob/main/src/lib.rs#L10-L20");
}

#[test]
fn parse_other_file_links() {
    let gl = GitFileLink::parse("https://gitlab.com/grp/proj/-/blob/dev/a/b.py#L5").unwrap();
    assert_eq!(gl.platform, FilePlatform::GitLab);
    assert_eq!(gl.raw_url, "https://gitlab.com/grp/proj/-/raw/dev/a/b.py");
    assert_eq!(gl.start_line, Some(5));
    assert_eq!(gl.end_line, None);
    let gt = GitFileLink::parse("https://codeberg.org/u/r/src/branch/main/x.go#L1-L3").unwrap();
    assert_eq!(gt.platform, FilePlatform::Gitea);
    assert_eq!(gt.raw_url, "https://codeberg.org/u/r/raw/main/x.go");
    let rd = GitFileLink::parse("https://docs.rs/serde/1.0.0/src/serde/lib.rs.html#10-20").unwrap();
    assert_eq!(rd.platform, FilePlatform::RustDoc);
    assert_eq!(rd.raw_url, "https://docs.rs/serde/1.0.0/src/serde/lib.rs");
    assert_eq!(rd.file_name, "lib.rs");
    assert_eq!((rd.start_line, rd.end_line), (Some(10), Some(20)));
    assert!(GitFileLink::parse("https://github.com/owner/repo").is_none());
}

#[test]
fn languages() {
    let mut l = GitFileLink::parse("https://github.com/o/r/blob/m/App.vue").unwrap();
    assert_eq!(l.get_language(), "jsx");
    l.file_name = "a.jsonc".to_string();
    assert_eq!(l.get_language(), "json");
    l.file_name = "README.mdx".to_string();
    assert_eq!(l.get_language(), "md");
    l.file_name = "Makefile".to_string();
    assert_eq!(l.get_language(), "Makefile");
    l.file_name = "x.sublime-keymap".to_string();
    assert_eq!(l.get_language(), "json");
}

#[test]
fn extract_and_format() {
    let l = GitFileLink::parse("https://github.com/o/r/blob/m/src/x.rs#L2-L3").unwrap();
    let content = "a\n  b\n  c\nd";
    assert!(l.extract_is_safe(content));
    assert_eq!(l.extract_lines(content), Some("b\nc".to_string()));
    assert_eq!(l.format_response(content), Ok("**x.rs:** Lines 2-3\n```rs\nb\nc\n```".to_string()));
    let one = GitFileLink::parse("https://github.com/o/r/blob/m/src/x.rs#L4").unwrap();
    assert_eq!(one.extract_lines(content), Some("d".to_string()));
    assert_eq!(one.format_response(content), Ok("**x.rs:** Line 4\n```rs\nd\n```".to_string()));
    let past = GitFileLink::parse("https://github.com/o/r/blob/m/src/x.rs#L9").unwrap();
    assert_eq!(past.extract_lines(content), None);
    assert_eq!(past.format_response(content), Err("File too long or invalid".to_string()));
    let md = GitFileLink::parse("https://github.com/o/r/blob/m/README.md").unwrap();
    assert_eq!(md.extract_lines("# Title"), None);
    let whole = GitFileLink::parse("https://github.com/o/r/blob/m/a.py").unwrap();
    assert_eq!(whole.extract_lines("\tx\n\ty"), Some("x\ny".to_string()));
    let long: String = (0..21).map(|i| format!("l{}\n", i)).collect();
    assert_eq!(whole.extract_lines(&long), None);
}

#[test]
fn strip_html_entities() {
    assert_eq!(strip_html("<span>a &lt; b</span>\n&amp;&foo;"), "a < b\n&&foo;");
    assert_eq!(strip_html("x &nbsp"), "x &nbsp;");
    assert_eq!(strip_html("<b>q</b>&quot;&#39;&apos;"), "q\"''");
}

#[test]
fn commit_links() {
    let c = github_commit();
    assert_eq!(c.platform, GitPlatform::GitHub);
    assert_eq!((c.owner.as_str(), c.repo.as_str(), c.commit.as_str()), ("o", "r", "abc123"));
    assert_eq!(c.diff_hash, Some("def".to_string()));
    assert!(!c.is_compare);
    assert_eq!(c.diff_url(), "https://github.com/o/r/commit/abc123.diff");
    let cmp = CommitDiff::parse("https://github.com/o/r/compare/a...b").unwrap();
    assert!(cmp.is_compare);
    assert_eq!(cmp.diff_url(), "https://github.com/o/r/compare/a...b.diff");
    let gl = CommitDiff::parse("https://gitlab.com/g/sub/p/-/commit/abc").unwrap();
    assert_eq!(gl.platform, GitPlatform::GitLab);
    assert_eq!((gl.owner.as_str(), gl.repo.as_str()), ("g/sub", "p"));
    assert_eq!(gl.host, Some("gitlab.com".to_string()));
    assert_eq!(gl.diff_url(), "https://gitlab.com/g/sub/p/-/commit/abc.diff");
    let glc = CommitDiff::parse("https://gitlab.com/g/p/-/compare/main...dev?x=1").unwrap();
    assert!(glc.is_compare);
    assert_eq!(glc.commit, "main...dev");
    assert_eq!(
        glc.diff_url(),
        "https://gitlab.com/api/v4/projects/g%2Fp/repository/compare?from=main&to=dev&straight=true"
    );
    assert!(glc.diff_is_json());
    assert!(!gl.diff_is_json());
    assert!(CommitDiff::parse("https://example.com/nothing").is_none());
}

#[test]
fn commit_url_words() {
    assert!(is_github_commit_url("https://github.com/o/r/commit/1"));
    assert!(is_gitlab_commit_url("https://h/x/-/compare/a...b"));
    assert!(is_commit_url("https://github.com/o/r/compare/a...b"));
    assert!(!is_commit_url("https://github.com/o/r"));
    assert_eq!(clean_url("https://github.com/o/r/commit/abc?diff=split),"), "https://github.com/o/r/commit/abc");
    assert_eq!(clean_url("https://github.com/o/r/commit/abc]};"), "https://github.com/o/r/commit/abc");
}

#[test]
fn diff_files_and_pages() {
    let files = parse_diff_files(SAMPLE_DIFF);
    assert_eq!(files.len(), 1);
    assert_eq!(files[0].file_path, "src/a.rs");
    assert_eq!(files[0].additions, 1);
    assert_eq!(files[0].deletions, 1);
    assert_eq!(files[0].changes, "--- a/src/a.rs\n+++ b/src/a.rs\n@@ -1,2 +1,2 @@\n-old\n+new");
    let c = github_commit();
    assert_eq!(
        c.format_diff_response(SAMPLE_DIFF),
        Ok(vec!["**a.rs** `+1 -1`\n```diff\n--- a/src/a.rs\n+++ b/src/a.rs\n@@ -1,2 +1,2 @@\n-old\n+new\n```".to_string()])
    );
    assert_eq!(c.format_diff_response(""), Err("No files changed in this commit".to_string()));
    let mut f = github_commit();
    f.file_filter = Some("b.rs".to_string());
    assert_eq!(f.format_diff_response(SAMPLE_DIFF), Err("No file matching 'b.rs' found in this commit".to_string()));
    f.file_filter = Some("a.rs".to_string());
    assert!(f.matches_filter("src/a.rs"));
    assert_eq!(f.format_diff_response(SAMPLE_DIFF).map(|v| v.len()), Ok(1));
}

#[test]
fn backticks_in_changes_are_escaped() {
    let diff = "diff --git a/x b/x\n+++ b/x\n+```\n";
    let c = github_commit();
    assert_eq!(c.format_diff_response(diff), Ok(vec!["**x** `+1 -0`\n```diff\n+++ b/x\n+`\\``\n```".to_string()]));
}

#[test]
fn one_file_per_page() {
    let pages = vec!["a".to_string(), "b\nc".to_string(), "d".to_string()];
    assert_eq!(chunk_pages(&pages), pages);
    assert_eq!(chunk_pages(&Vec::new()), Vec::<String>::new());
}

#[test]
fn cache_keys() {
    let c = github_commit();
    assert_eq!(get_cache_key(&c), "cmt:github.com:o:r:abc123");
    let mut f = github_commit();
    f.file_filter = Some("x.rs".to_string());
    assert_eq!(get_cache_key(&f), "cmt:github.com:o:r:abc123:x.rs");
    let glc = CommitDiff::parse("https://gitlab.com/g/p/-/compare/main...dev").unwrap();
    assert_eq!(get_cache_key(&glc), "cmp:gitlab.com:g:p:main...dev");
}

#[test]
fn gitlab_compare_json() {
    let entry = Json::Object(vec![
        ("old_path".to_string(), Json::Str("a".to_string())),
        ("new_path".to_string(), Json::Str("b".to_string())),
        ("diff".to_string(), Json::Str("@@\n+x".to_string())),
    ]);
    let doc = Json::Object(vec![("diffs".to_string(), Json::Array(vec![entry]))]);
    assert_eq!(gitlab_compare_diff(&doc), Ok("diff --git a/a b/b\n--- a/a\n+++ b/b\n@@\n+x\n".to_string()));
    let missing = Json::Object(vec![("diffs".to_string(), Json::Array(vec![Json::Object(vec![])]))]);
    assert_eq!(
        gitlab_compare_diff(&missing),
        Ok("diff --git a/unknown b/unknown\n--- a/unknown\n+++ b/unknown\n\n".to_string())
    );
    assert_eq!(gitlab_compare_diff(&Json::Null), Err("No diffs found in GitLab API response".to_string()));
}
