use codemerge::matcher::{normalize_pattern, parse_line, strip_root_exec, GitignoreManager, IgnoreFile};
use codemerge::walker::find_files;

fn chars(s: &str) -> Vec<char> {
    s.chars().collect()
}

fn text(v: &[char]) -> String {
    v.iter().collect()
}

fn globs(dir: &str, line: &str) -> Vec<String> {
    parse_line(&chars(dir), &chars(line)).iter().map(|g| text(g)).collect()
}

#[test]
fn normalize_collapses_dot_segments() {
    assert_eq!(text(&normalize_pattern(&chars("./foo/../bar/"))), "bar/");
    assert_eq!(text(&normalize_pattern(&chars("a//b/./c"))), "a/b/c");
    assert_eq!(text(&normalize_pattern(&chars("../x"))), "x");
}

#[test]
fn normalize_keeps_anchor_and_converts_backslashes() {
    assert_eq!(text(&normalize_pattern(&chars("/build"))), "/build");
    assert_eq!(text(&normalize_pattern(&chars("a\\b"))), "a/b");
}

#[test]
fn unanchored_line_gives_local_and_any_depth_globs() {
    assert_eq!(globs("", "node_modules/"), vec!["node_modules/**", "**/node_modules/**"]);
    assert_eq!(globs("sub", "*.log"), vec!["sub/*.log", "**/*.log"]);
}

#[test]
fn anchored_line_gives_one_glob() {
    assert_eq!(globs("", "/target"), vec!["target"]);
    assert_eq!(globs("", "  /dist/  "), vec!["dist/**"]);
}

#[test]
fn negated_line_keeps_marker() {
    assert_eq!(globs("", "!keep.txt"), vec!["!keep.txt", "!**/keep.txt"]);
}

#[test]
fn comments_and_blank_lines_give_nothing() {
    assert!(globs("", "# comment").is_empty());
    assert!(globs("", "   \t").is_empty());
    assert!(globs("", "").is_empty());
}

#[test]
fn is_ignored_uses_every_scope() {
    let ignores = vec![
        IgnoreFile { dir: String::new(), content: "*.log\n".to_string() },
        IgnoreFile { dir: "docs".to_string(), content: "draft/\n".to_string() },
    ];
    let m = GitignoreManager::new("/proj", &ignores).unwrap();
    assert!(m.is_ignored("/proj/a/x.log"));
    assert!(m.is_ignored("./docs/draft/one.md"));
    assert!(m.is_ignored("other/draft/two.md"));
    assert!(m.is_ignored("node_modules/x.js"));
    assert!(m.is_ignored("/proj/target/debug/app"));
    assert!(!m.is_ignored("/proj/src/main.rs"));
    assert!(!m.is_ignored("src/main.rs"));
}

#[test]
fn negation_does_not_reinclude_across_scopes() {
    let ignores = vec![IgnoreFile { dir: String::new(), content: "*.log\n!keep.log\n".to_string() }];
    let m = GitignoreManager::new("/proj", &ignores).unwrap();
    assert!(m.is_ignored("keep.log"));
}

#[test]
fn walk_drops_ignore_files_and_excluded_paths() {
    let m = GitignoreManager::new("/p", &vec![]).unwrap();
    let files: Vec<String> = ["/p/.gitignore", "/p/sub/.GitIgnore", "/p/a.rs", "/p/x.lock"]
        .iter()
        .map(|s| s.to_string())
        .collect();
    assert_eq!(m.walk(&files), vec!["/p/a.rs".to_string()]);
}

#[test]
fn strip_root_is_component_wise() {
    assert_eq!(text(&strip_root_exec(&chars("/r"), &chars("/r/a/b"))), "a/b");
    assert_eq!(text(&strip_root_exec(&chars("/r"), &chars("/rx/a"))), "/rx/a");
    assert_eq!(text(&strip_root_exec(&chars("/r"), &chars("/r"))), "");
}

#[test]
fn nested_ignore_file_scope_applies_everywhere() {
    let files: Vec<String> = ["/r/a/gen.txt", "/r/b/gen.txt", "/r/b/keep.txt"].iter().map(|s| s.to_string()).collect();
    let ignores = vec![IgnoreFile { dir: "a".to_string(), content: "gen.txt\n".to_string() }];
    let found = find_files("/r", &files, &ignores, &vec!["**".to_string()], &vec![]).unwrap();
    assert_eq!(found, vec!["/r/b/keep.txt".to_string()]);
}

#[test]
fn rooted_line_is_anchored_at_its_directory() {
    assert_eq!(globs("sub", "/only.txt"), vec!["sub/only.txt"]);
    assert_eq!(globs("a/b", "!/gen/"), vec!["!a/b/gen/**"]);
    let ignores = vec![IgnoreFile { dir: "sub".to_string(), content: "/only.txt\n".to_string() }];
    let m = GitignoreManager::new("/r", &ignores).unwrap();
    assert!(m.is_ignored("/r/sub/only.txt"));
    assert!(!m.is_ignored("/r/only.txt"));
    assert!(!m.is_ignored("/r/x/sub/only.txt"));
}

#[test]
fn root_with_trailing_slash_strips_like_a_path() {
    assert_eq!(text(&strip_root_exec(&chars("/p/"), &chars("/p/a/b.rs"))), "a/b.rs");
    let files = vec!["/p/a/b.rs".to_string(), "/p/c.txt".to_string()];
    let found = find_files("/p/", &files, &vec![], &vec!["a/*.rs".to_string()], &vec![]).unwrap();
    assert_eq!(found, vec!["/p/a/b.rs".to_string()]);
}
